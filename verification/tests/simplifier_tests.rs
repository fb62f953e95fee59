use shuntyard::parser::ASTNode;
use shuntyard::simplifier::{simplify, simplify_fix};

#[test]
fn simplify_fix_mult_zero_test() {
    let ast1 = ASTNode::Multiply(
        Box::new(ASTNode::Number(0)),
        Box::new(ASTNode::Add(
            Box::new(ASTNode::Number(1)),
            Box::new(ASTNode::Number(1)),
        )),
    );
    let exp_ast = ASTNode::Number(0);
    let simp_ast = simplify_fix(ast1);
    println!(
        "Expected AST: {:?}, Simplified AST: {:?}",
        exp_ast, simp_ast
    );
    assert_eq!(simp_ast, exp_ast);
}

#[test]
fn simplify_fix_test() {
    let ast1 = ASTNode::Multiply(
        Box::new(ASTNode::Number(1)),
        Box::new(ASTNode::Add(
            Box::new(ASTNode::Number(1)),
            Box::new(ASTNode::Number(1)),
        )),
    );
    let exp_ast = ASTNode::Multiply(
        Box::new(ASTNode::Number(1)),
        Box::new(ASTNode::Add(
            Box::new(ASTNode::Number(1)),
            Box::new(ASTNode::Number(1)),
        )),
    );
    let simp_ast = simplify_fix(ast1);
    println!(
        "Expected AST: {:?}, Simplified AST: {:?}",
        exp_ast, simp_ast
    );
    assert_eq!(exp_ast, simp_ast);
}

#[test]
fn simplify_or_test() {
    let ast1 = ASTNode::Multiply(
        Box::new(ASTNode::Number(0)),
        Box::new(ASTNode::Multiply(
            Box::new(ASTNode::Number(1)),
            Box::new(ASTNode::Bool(false)),
        )),
    );
    // The zero-collapse rule is purely syntactic: it fires although the
    // other child is not even well typed.
    let exp_ast = ASTNode::Number(0);
    let simp_ast = simplify_fix(ast1);
    println!(
        "Expected AST: {:?}, Simplified AST: {:?}",
        exp_ast, simp_ast
    );
    assert_eq!(exp_ast, simp_ast);
}

#[test]
fn simplify_fix_needs_several_passes() {
    // The inner product collapses on the first pass, the outer one only on
    // the second.
    let ast = ASTNode::Multiply(
        Box::new(ASTNode::Multiply(
            Box::new(ASTNode::Number(0)),
            Box::new(ASTNode::Number(1)),
        )),
        Box::new(ASTNode::Number(1)),
    );
    let once = simplify(&ast);
    assert_eq!(
        once,
        ASTNode::Multiply(Box::new(ASTNode::Number(0)), Box::new(ASTNode::Number(1)))
    );
    let ast2 = ASTNode::Multiply(
        Box::new(ASTNode::Multiply(
            Box::new(ASTNode::Number(0)),
            Box::new(ASTNode::Number(1)),
        )),
        Box::new(ASTNode::Number(1)),
    );
    assert_eq!(simplify_fix(ast2), ASTNode::Number(0));
}

#[test]
fn simplify_recurses_under_add_and_or() {
    let ast = ASTNode::Add(
        Box::new(ASTNode::Multiply(
            Box::new(ASTNode::Number(0)),
            Box::new(ASTNode::Number(1)),
        )),
        Box::new(ASTNode::Or(
            Box::new(ASTNode::Bool(true)),
            Box::new(ASTNode::Multiply(
                Box::new(ASTNode::Number(1)),
                Box::new(ASTNode::Number(0)),
            )),
        )),
    );
    let expected = ASTNode::Add(
        Box::new(ASTNode::Number(0)),
        Box::new(ASTNode::Or(
            Box::new(ASTNode::Bool(true)),
            Box::new(ASTNode::Number(0)),
        )),
    );
    assert_eq!(simplify(&ast), expected);
}

#[test]
fn simplify_fix_is_idempotent_on_samples() {
    let samples = vec![
        ASTNode::Multiply(
            Box::new(ASTNode::Multiply(
                Box::new(ASTNode::Number(0)),
                Box::new(ASTNode::Number(1)),
            )),
            Box::new(ASTNode::Number(1)),
        ),
        ASTNode::Add(Box::new(ASTNode::Number(1)), Box::new(ASTNode::Bool(true))),
        ASTNode::Number(0),
    ];
    for ast in samples {
        let copy = simplify_fix(simplify_fix(clone_tree(&ast)));
        assert_eq!(copy, simplify_fix(ast));
    }
}

fn clone_tree(ast: &ASTNode) -> ASTNode {
    match ast {
        ASTNode::Number(v) => ASTNode::Number(*v),
        ASTNode::Bool(b) => ASTNode::Bool(*b),
        ASTNode::Add(l, r) => ASTNode::Add(Box::new(clone_tree(l)), Box::new(clone_tree(r))),
        ASTNode::Multiply(l, r) => {
            ASTNode::Multiply(Box::new(clone_tree(l)), Box::new(clone_tree(r)))
        }
        ASTNode::Or(l, r) => ASTNode::Or(Box::new(clone_tree(l)), Box::new(clone_tree(r))),
    }
}
