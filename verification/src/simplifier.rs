//! Simplifier: algebraic rewriting of a tree to a fixpoint.
//!
//! One pass leaves the leaves alone, rebuilds `Add` and `Or` from their
//! simplified children, and collapses a `Multiply` to `Number(0)` whenever
//! either child is literally that leaf — a purely syntactic rule, applied
//! without looking at (or type-checking) the other child.  The fixpoint
//! driver repeats the pass until the tree no longer changes; every collapse
//! strictly shrinks the tree, so it always terminates.

use vstd::prelude::*;

use crate::parser::ASTNode;

verus! {

/// The number of nodes in a tree; the measure that every rewriting pass
/// drives down.
pub open spec fn node_size(node: ASTNode) -> nat
    decreases node,
{
    match node {
        ASTNode::Number(_) => 1,
        ASTNode::Bool(_) => 1,
        ASTNode::Add(l, r) => 1 + node_size(*l) + node_size(*r),
        ASTNode::Multiply(l, r) => 1 + node_size(*l) + node_size(*r),
        ASTNode::Or(l, r) => 1 + node_size(*l) + node_size(*r),
    }
}

/// One simplification pass, as [`simplify`] computes it.
pub open spec fn spec_simplify(node: ASTNode) -> ASTNode
    decreases node,
{
    match node {
        ASTNode::Number(v) => ASTNode::Number(v),
        ASTNode::Bool(b) => ASTNode::Bool(b),
        ASTNode::Add(l, r) => ASTNode::Add(
            Box::new(spec_simplify(*l)),
            Box::new(spec_simplify(*r)),
        ),
        ASTNode::Multiply(l, r) => {
            if *l == ASTNode::Number(0) || *r == ASTNode::Number(0) {
                ASTNode::Number(0)
            } else {
                ASTNode::Multiply(Box::new(spec_simplify(*l)), Box::new(spec_simplify(*r)))
            }
        },
        ASTNode::Or(l, r) => ASTNode::Or(Box::new(spec_simplify(*l)), Box::new(spec_simplify(*r))),
    }
}

/// A tree holds at least one node.
pub proof fn lemma_node_size_pos(node: ASTNode)
    ensures
        node_size(node) >= 1,
{
    match node {
        ASTNode::Number(_) => {},
        ASTNode::Bool(_) => {},
        ASTNode::Add(l, r) => {},
        ASTNode::Multiply(l, r) => {},
        ASTNode::Or(l, r) => {},
    }
}

/// A pass never grows the tree, and a pass that changes the tree strictly
/// shrinks it — the well-founded measure behind [`spec_simplify_fix`].
pub proof fn lemma_simplify_shrinks(node: ASTNode)
    ensures
        node_size(spec_simplify(node)) <= node_size(node),
        spec_simplify(node) != node ==> node_size(spec_simplify(node)) < node_size(node),
    decreases node,
{
    match node {
        ASTNode::Number(_) => {},
        ASTNode::Bool(_) => {},
        ASTNode::Add(l, r) => {
            lemma_simplify_shrinks(*l);
            lemma_simplify_shrinks(*r);
        },
        ASTNode::Multiply(l, r) => {
            if *l == ASTNode::Number(0) || *r == ASTNode::Number(0) {
                lemma_node_size_pos(*l);
                lemma_node_size_pos(*r);
            } else {
                lemma_simplify_shrinks(*l);
                lemma_simplify_shrinks(*r);
            }
        },
        ASTNode::Or(l, r) => {
            lemma_simplify_shrinks(*l);
            lemma_simplify_shrinks(*r);
        },
    }
}

/// The fixpoint of [`spec_simplify`]: passes are applied until the tree no
/// longer changes.  Well defined because a changing pass strictly shrinks
/// the tree.
pub open spec fn spec_simplify_fix(node: ASTNode) -> ASTNode
    decreases node_size(node),
    via spec_simplify_fix_decreases
{
    if spec_simplify(node) == node {
        node
    } else {
        spec_simplify_fix(spec_simplify(node))
    }
}

#[via_fn]
proof fn spec_simplify_fix_decreases(node: ASTNode) {
    lemma_simplify_shrinks(node);
}

/// The result of [`spec_simplify_fix`] is a fixed point: one more pass
/// leaves it alone.
pub proof fn lemma_simplify_fix_is_fixpoint(node: ASTNode)
    ensures
        spec_simplify(spec_simplify_fix(node)) == spec_simplify_fix(node),
    decreases node_size(node),
{
    if spec_simplify(node) == node {
    } else {
        lemma_simplify_shrinks(node);
        lemma_simplify_fix_is_fixpoint(spec_simplify(node));
    }
}

/// Simplifying to the fixpoint is idempotent: a second run returns its
/// input unchanged, for every tree.
pub proof fn lemma_simplify_fix_idempotent(node: ASTNode)
    ensures
        spec_simplify_fix(spec_simplify_fix(node)) == spec_simplify_fix(node),
{
    lemma_simplify_fix_is_fixpoint(node);
}

/// One simplification pass over `ast`, building a new tree: leaves are
/// kept, `Add` and `Or` are rebuilt from their simplified children, and a
/// `Multiply` with a literal `Number(0)` child collapses to `Number(0)`
/// without the other child being simplified or type-checked.
pub fn simplify(ast: &ASTNode) -> (r: ASTNode)
    ensures
        r == spec_simplify(*ast),
    decreases *ast,
{
    match ast {
        ASTNode::Number(v) => ASTNode::Number(*v),
        ASTNode::Bool(b) => ASTNode::Bool(*b),
        ASTNode::Add(left, right) => ASTNode::Add(
            Box::new(simplify(left)),
            Box::new(simplify(right)),
        ),
        ASTNode::Multiply(left, right) => {
            if **left == ASTNode::Number(0) || **right == ASTNode::Number(0) {
                ASTNode::Number(0)
            } else {
                ASTNode::Multiply(Box::new(simplify(left)), Box::new(simplify(right)))
            }
        },
        ASTNode::Or(left, right) => ASTNode::Or(Box::new(simplify(left)), Box::new(simplify(right))),
    }
}

/// Applies [`simplify`] until the tree no longer changes and returns the
/// fixpoint; terminates on every input because each changing pass strictly
/// shrinks the tree.
pub fn simplify_fix(ast: ASTNode) -> (r: ASTNode)
    ensures
        r == spec_simplify_fix(ast),
    decreases node_size(ast),
{
    let ast2 = simplify(&ast);
    if ast2 == ast {
        ast
    } else {
        proof {
            lemma_simplify_shrinks(ast);
        }
        simplify_fix(ast2)
    }
}

} // verus!
