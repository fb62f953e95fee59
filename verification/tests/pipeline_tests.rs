//! The four stages put together: text to tokens to tree to value.

use shuntyard::evaluator::eval;
use shuntyard::lexer::Lexer;
use shuntyard::parser::{ASTNode, ParseError, ResultEval, ShuntiyardParser};
use shuntyard::simplifier::simplify_fix;

fn parse(input: &str) -> Result<ASTNode, ParseError> {
    let lexer = Lexer::new(input.into());
    let mut parser = ShuntiyardParser::new(lexer);
    parser.parse()
}

#[test]
fn parse_then_eval_mult_add() {
    let ast = parse("1 + 1 * 0").unwrap();
    assert_eq!(eval(&ast), Some(ResultEval::Int(1)));
}

#[test]
fn parse_then_eval_or_chain() {
    let ast = parse("(0 * 1) + 1 || false").unwrap();
    // 0*1+1 evaluates to the integer 1, which a logical or rejects.
    assert_eq!(eval(&ast), None);
    let ast2 = parse("false || true").unwrap();
    assert_eq!(eval(&ast2), Some(ResultEval::Bool(true)));
}

#[test]
fn parse_simplify_then_eval() {
    let ast = parse("0 * (1 + 1) + 1").unwrap();
    let simplified = simplify_fix(ast);
    assert_eq!(
        simplified,
        ASTNode::Add(Box::new(ASTNode::Number(1)), Box::new(ASTNode::Number(0)))
    );
    assert_eq!(eval(&simplified), Some(ResultEval::Int(1)));
}

#[test]
fn precedence_orders_the_tree() {
    // "* " binds tighter than "+", which binds tighter than "||".
    let ast = parse("true || 0 * 1 + 1").unwrap();
    assert_eq!(
        ast,
        ASTNode::Or(
            Box::new(ASTNode::Bool(true)),
            Box::new(ASTNode::Add(
                Box::new(ASTNode::Number(1)),
                Box::new(ASTNode::Multiply(
                    Box::new(ASTNode::Number(1)),
                    Box::new(ASTNode::Number(0)),
                )),
            )),
        )
    );
}
