//! A tiny expression language over the literals `0`, `1`, `true` and `false`,
//! with multiplication, addition and logical or, grouped by parentheses.
//!
//! The pipeline has four stages, each an independent component:
//! a lexer turning bytes into tokens, a shunting-yard parser building an
//! abstract syntax tree, a simplifier rewriting the tree to an algebraic
//! fixpoint, and a type-checked short-circuit evaluator.

pub mod evaluator;
pub mod lexer;
pub mod parser;
pub mod simplifier;
