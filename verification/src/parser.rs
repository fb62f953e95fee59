//! Parser: builds an abstract syntax tree from the token stream by the
//! shunting-yard algorithm.
//!
//! The parser keeps two stacks: pending operators and partially built
//! subtrees.  Literal tokens push a leaf; an operator first reduces every
//! stacked operator of equal or higher precedence (operators are
//! left-associative); `(` is stacked and `)` reduces back to it.  At end of
//! input the remaining operators are reduced and exactly one tree must be
//! left.  Input that leaves the grammar is reported as a [`ParseError`]
//! rather than a crash.

use vstd::prelude::*;

use crate::lexer::{spec_next_token, LexError, Lexer, Token};

verus! {

/// A node of the abstract syntax tree: a numeric or boolean leaf, or a
/// binary operation owning its two children.  Only `0` and `1` are
/// producible as numeric literals, but `Number` carries any small unsigned
/// integer, since arithmetic can exceed 1.
#[derive(Debug)]
pub enum ASTNode {
    Number(u8),
    Bool(bool),
    Add(Box<ASTNode>, Box<ASTNode>),
    Multiply(Box<ASTNode>, Box<ASTNode>),
    Or(Box<ASTNode>, Box<ASTNode>),
}

impl PartialEq for ASTNode {
    /// Structural equality of two trees.
    fn eq(&self, other: &ASTNode) -> bool
        decreases *self,
    {
        match (self, other) {
            (ASTNode::Number(a), ASTNode::Number(b)) => a == b,
            (ASTNode::Bool(a), ASTNode::Bool(b)) => a == b,
            (ASTNode::Add(al, ar), ASTNode::Add(bl, br)) => **al == **bl && **ar == **br,
            (ASTNode::Multiply(al, ar), ASTNode::Multiply(bl, br)) => **al == **bl && **ar == **br,
            (ASTNode::Or(al, ar), ASTNode::Or(bl, br)) => **al == **bl && **ar == **br,
            _ => false,
        }
    }
}

impl vstd::std_specs::cmp::PartialEqSpecImpl for ASTNode {
    open spec fn obeys_eq_spec() -> bool {
        true
    }

    open spec fn eq_spec(&self, other: &ASTNode) -> bool {
        *self == *other
    }
}

/// The outcome of evaluating a tree: a small integer or a boolean.
#[derive(Debug, PartialEq)]
pub enum ResultEval {
    Int(u8),
    Bool(bool),
}

/// Why a parse was rejected.
#[derive(Debug, PartialEq, Copy, Clone)]
pub enum ParseError {
    /// The lexer met a byte or identifier outside the language.
    Lex(LexError),
    /// An operator was reduced with fewer than two subtrees available.
    MissingOperand,
    /// A `)` arrived with no `(` left on the operator stack.
    UnmatchedRightParen,
    /// A `(` was still on the operator stack at end of input.
    UnmatchedLeftParen,
    /// The input held no expression at all.
    EmptyExpression,
    /// More than one tree was left at end of input.
    ExtraOperand,
}

/// The tokens that stand for a binary operator.
pub open spec fn is_binary_op(t: Token) -> bool {
    t is Mult || t is Add || t is Or
}

/// The precedence an operator token carries.
pub open spec fn spec_prec(t: Token) -> u8 {
    match t {
        Token::Mult(p) => p,
        Token::Add(p) => p,
        Token::Or(p) => p,
        _ => 0,
    }
}

/// The tree built when `op` reduces the two most recently pushed subtrees:
/// `first` popped first (the later operand), `second` popped second.
/// `Add` and `Multiply` pair the operands in pop order; `Or` pairs them in
/// the reverse order, an artifact of the reduction step that callers of the
/// parser observe in the tree shape.
pub open spec fn spec_combine(op: Token, first: ASTNode, second: ASTNode) -> ASTNode {
    match op {
        Token::Add(_) => ASTNode::Add(Box::new(first), Box::new(second)),
        Token::Mult(_) => ASTNode::Multiply(Box::new(first), Box::new(second)),
        Token::Or(_) => ASTNode::Or(Box::new(second), Box::new(first)),
        _ => first,
    }
}

/// One reduction: pop the two most recent subtrees and push their
/// combination under `op`; with fewer than two subtrees the parse fails.
pub open spec fn spec_reduce(outs: Seq<ASTNode>, op: Token) -> Result<Seq<ASTNode>, ParseError> {
    if outs.len() < 2 {
        Err(ParseError::MissingOperand)
    } else {
        Ok(
            outs.take(outs.len() - 2).push(
                spec_combine(op, outs[outs.len() - 1], outs[outs.len() - 2]),
            ),
        )
    }
}

/// When an operator of precedence `p` arrives: every stacked operator of
/// precedence at least `p` is reduced first (so equal precedence reduces at
/// once, making the operators left-associative); a `(` or the empty stack
/// stops the run.
pub open spec fn spec_flush_ops(ops: Seq<Token>, outs: Seq<ASTNode>, p: u8) -> Result<
    (Seq<Token>, Seq<ASTNode>),
    ParseError,
>
    decreases ops.len(),
{
    if ops.len() > 0 && is_binary_op(ops.last()) && p <= spec_prec(ops.last()) {
        match spec_reduce(outs, ops.last()) {
            Ok(outs2) => spec_flush_ops(ops.drop_last(), outs2, p),
            Err(e) => Err(e),
        }
    } else {
        Ok((ops, outs))
    }
}

/// When `)` arrives: stacked operators are reduced until a `(` is found and
/// discarded; an exhausted stack means the `)` had no partner.
pub open spec fn spec_close_paren(ops: Seq<Token>, outs: Seq<ASTNode>) -> Result<
    (Seq<Token>, Seq<ASTNode>),
    ParseError,
>
    decreases ops.len(),
{
    if ops.len() == 0 {
        Err(ParseError::UnmatchedRightParen)
    } else if ops.last() is LPar {
        Ok((ops.drop_last(), outs))
    } else {
        match spec_reduce(outs, ops.last()) {
            Ok(outs2) => spec_close_paren(ops.drop_last(), outs2),
            Err(e) => Err(e),
        }
    }
}

/// At end of input: the remaining operators are reduced (finding a `(`
/// here means it was never closed), and the one remaining tree is the
/// result — none or several is a parse error.
pub open spec fn spec_drain(ops: Seq<Token>, outs: Seq<ASTNode>) -> Result<ASTNode, ParseError>
    decreases ops.len(),
{
    if ops.len() == 0 {
        if outs.len() == 0 {
            Err(ParseError::EmptyExpression)
        } else if outs.len() > 1 {
            Err(ParseError::ExtraOperand)
        } else {
            Ok(outs[0])
        }
    } else if !is_binary_op(ops.last()) {
        Err(ParseError::UnmatchedLeftParen)
    } else {
        match spec_reduce(outs, ops.last()) {
            Ok(outs2) => spec_drain(ops.drop_last(), outs2),
            Err(e) => Err(e),
        }
    }
}

/// What one (non-`Eof`) token does to the two stacks.
pub open spec fn spec_step(ops: Seq<Token>, outs: Seq<ASTNode>, t: Token) -> Result<
    (Seq<Token>, Seq<ASTNode>),
    ParseError,
> {
    match t {
        Token::Zero => Ok((ops, outs.push(ASTNode::Number(0)))),
        Token::One => Ok((ops, outs.push(ASTNode::Number(1)))),
        Token::True => Ok((ops, outs.push(ASTNode::Bool(true)))),
        Token::False => Ok((ops, outs.push(ASTNode::Bool(false)))),
        Token::LPar => Ok((ops.push(t), outs)),
        Token::RPar => spec_close_paren(ops, outs),
        Token::Eof => Ok((ops, outs)),
        _ => match spec_flush_ops(ops, outs, spec_prec(t)) {
            Ok((ops2, outs2)) => Ok((ops2.push(t), outs2)),
            Err(e) => Err(e),
        },
    }
}

/// The whole parse of the bytes `s` from position `pos`, with the stacks
/// `ops` and `outs` as they stand: tokens are consumed and fed to
/// [`spec_step`] until `Eof`, then the stacks are drained.  This is what
/// [`ShuntiyardParser::parse`] returns.
pub open spec fn spec_run(s: Seq<u8>, pos: nat, ops: Seq<Token>, outs: Seq<ASTNode>) -> Result<
    ASTNode,
    ParseError,
>
    decreases s.len() - pos,
    when pos <= s.len()
    via spec_run_decreases
{
    match spec_next_token(s, pos).0 {
        Err(e) => Err(ParseError::Lex(e)),
        Ok(t) => {
            if t is Eof {
                spec_drain(ops, outs)
            } else {
                match spec_step(ops, outs, t) {
                    Ok((ops2, outs2)) => spec_run(s, spec_next_token(s, pos).1, ops2, outs2),
                    Err(e) => Err(e),
                }
            }
        },
    }
}

#[via_fn]
proof fn spec_run_decreases(s: Seq<u8>, pos: nat, ops: Seq<Token>, outs: Seq<ASTNode>) {
    crate::lexer::lemma_next_token_bounds(s, pos);
}

/// Every token on the operator stack is an operator or a `(`.
pub open spec fn stack_ok(ops: Seq<Token>) -> bool {
    forall|k: int| 0 <= k < ops.len() ==> (ops[k] is LPar || is_binary_op(#[trigger] ops[k]))
}

/// The shunting-yard parser: a lexer to draw tokens from, the stack of
/// pending operators and the stack of partially built subtrees.
pub struct ShuntiyardParser {
    lexer: Lexer,
    operator_stack: Vec<Token>,
    output_queue: Vec<ASTNode>,
}

impl ShuntiyardParser {
    /// The input bytes of the underlying lexer.
    pub closed spec fn in_bytes(&self) -> Seq<u8> {
        self.lexer.bytes()
    }

    /// The position of the underlying lexer.
    pub closed spec fn in_pos(&self) -> nat {
        self.lexer.pos()
    }

    /// The operator stack.
    pub closed spec fn ops(&self) -> Seq<Token> {
        self.operator_stack@
    }

    /// The stack of built subtrees (the output queue).
    pub closed spec fn outs(&self) -> Seq<ASTNode> {
        self.output_queue@
    }

    /// Well-formedness: the lexer is well formed and the operator stack
    /// holds only operators and `(`.
    pub closed spec fn wf(&self) -> bool {
        self.lexer.wf() && stack_ok(self.ops())
    }

    /// Wraps `lexer`, with both stacks empty.
    pub fn new(lexer: Lexer) -> (parser: ShuntiyardParser)
        ensures
            lexer.wf() ==> parser.wf(),
            parser.in_bytes() == lexer.bytes(),
            parser.in_pos() == lexer.pos(),
            parser.ops() == Seq::<Token>::empty(),
            parser.outs() == Seq::<ASTNode>::empty(),
    {
        let parser = ShuntiyardParser {
            lexer: lexer,
            operator_stack: Vec::new(),
            output_queue: Vec::new(),
        };
        parser
    }

    /// Pops the two most recently pushed subtrees and pushes their
    /// combination under `operator`, exactly as [`spec_reduce`] says; with
    /// fewer than two subtrees it reports `MissingOperand` and leaves the
    /// parser unchanged.
    pub fn add_node(&mut self, operator: &Token) -> (r: Result<(), ParseError>)
        requires
            old(self).wf(),
            is_binary_op(*operator),
        ensures
            final(self).wf(),
            final(self).in_bytes() == old(self).in_bytes(),
            final(self).in_pos() == old(self).in_pos(),
            final(self).ops() == old(self).ops(),
            match spec_reduce(old(self).outs(), *operator) {
                Ok(outs2) => r is Ok && final(self).outs() == outs2,
                Err(e) => r == Err::<(), ParseError>(e) && final(self).outs() == old(self).outs(),
            },
    {
        if self.output_queue.len() < 2 {
            return Err(ParseError::MissingOperand);
        }
        let l_node = self.output_queue.pop().unwrap();
        let r_node = self.output_queue.pop().unwrap();

        let node = match operator {
            Token::Add(_) => ASTNode::Add(Box::new(l_node), Box::new(r_node)),
            Token::Mult(_) => ASTNode::Multiply(Box::new(l_node), Box::new(r_node)),
            _ => ASTNode::Or(Box::new(r_node), Box::new(l_node)),
        };
        self.output_queue.push(node);
        proof {
            assert(self.output_queue@ =~= spec_reduce(old(self).outs(), *operator)->Ok_0);
        }
        Ok(())
    }

    /// Parses the remaining input to one tree: tokens are consumed until
    /// `Eof` and fed through the algorithm, then the stacks are drained.
    /// Returns exactly what [`spec_run`] says for the parser's state at the
    /// call — the built tree, or the first error met.
    pub fn parse(&mut self) -> (r: Result<ASTNode, ParseError>)
        requires
            old(self).wf(),
        ensures
            final(self).wf(),
            final(self).in_bytes() == old(self).in_bytes(),
            r == spec_run(
                old(self).in_bytes(),
                old(self).in_pos(),
                old(self).ops(),
                old(self).outs(),
            ),
    {
        let ghost s = self.in_bytes();
        let ghost run0 = spec_run(s, self.in_pos(), self.ops(), self.outs());
        loop
            invariant_except_break
                spec_run(s, self.in_pos(), self.ops(), self.outs()) == run0,
            invariant
                self.wf(),
                self.in_bytes() == s,
                s == old(self).in_bytes(),
                run0 == spec_run(
                    old(self).in_bytes(),
                    old(self).in_pos(),
                    old(self).ops(),
                    old(self).outs(),
                ),
            ensures
                self.wf(),
                self.in_bytes() == s,
                run0 == spec_drain(self.ops(), self.outs()),
                run0 == spec_run(
                    old(self).in_bytes(),
                    old(self).in_pos(),
                    old(self).ops(),
                    old(self).outs(),
                ),
            decreases s.len() - self.in_pos(),
        {
            proof {
                crate::lexer::lemma_next_token_bounds(s, self.in_pos());
            }
            match self.lexer.next_token() {
                Err(e) => {
                    return Err(ParseError::Lex(e));
                },
                Ok(token) => match token {
                    Token::Zero => self.output_queue.push(ASTNode::Number(0)),
                    Token::One => self.output_queue.push(ASTNode::Number(1)),
                    Token::True => self.output_queue.push(ASTNode::Bool(true)),
                    Token::False => self.output_queue.push(ASTNode::Bool(false)),
                    Token::Add(o1) | Token::Mult(o1) | Token::Or(o1) => {
                        match self.flush_ops(o1) {
                            Ok(_) => {},
                            Err(e) => {
                                return Err(e);
                            },
                        }
                        self.operator_stack.push(token);
                    },
                    Token::LPar => self.operator_stack.push(token),
                    Token::RPar => {
                        match self.close_paren() {
                            Ok(_) => {},
                            Err(e) => {
                                return Err(e);
                            },
                        }
                    },
                    Token::Eof => {
                        break;
                    },
                },
            }
        }
        self.drain_ops()
    }

    /// Reduces every stacked operator of precedence at least `prec`,
    /// stopping at a `(` or the empty stack, as [`spec_flush_ops`] says.
    fn flush_ops(&mut self, prec: u8) -> (r: Result<(), ParseError>)
        requires
            old(self).wf(),
        ensures
            final(self).wf(),
            final(self).in_bytes() == old(self).in_bytes(),
            final(self).in_pos() == old(self).in_pos(),
            match spec_flush_ops(old(self).ops(), old(self).outs(), prec) {
                Ok(st) => r is Ok && final(self).ops() == st.0 && final(self).outs() == st.1,
                Err(e) => r == Err::<(), ParseError>(e),
            },
    {
        loop
            invariant_except_break
                spec_flush_ops(self.ops(), self.outs(), prec) == spec_flush_ops(
                    old(self).ops(),
                    old(self).outs(),
                    prec,
                ),
            invariant
                self.wf(),
                self.in_bytes() == old(self).in_bytes(),
                self.in_pos() == old(self).in_pos(),
            ensures
                self.wf(),
                self.in_bytes() == old(self).in_bytes(),
                self.in_pos() == old(self).in_pos(),
                spec_flush_ops(old(self).ops(), old(self).outs(), prec) == Ok::<
                    (Seq<Token>, Seq<ASTNode>),
                    ParseError,
                >((self.ops(), self.outs())),
            decreases self.ops().len(),
        {
            if self.operator_stack.len() == 0 {
                break;
            }
            let top = self.operator_stack[self.operator_stack.len() - 1];
            match top {
                Token::Add(o2) | Token::Mult(o2) | Token::Or(o2) => {
                    if prec <= o2 {
                        let ghost ops_before = self.ops();
                        let op = self.operator_stack.pop().unwrap();
                        proof {
                            assert(self.operator_stack@ =~= ops_before.drop_last());
                        }
                        match self.add_node(&op) {
                            Ok(_) => {},
                            Err(e) => {
                                return Err(e);
                            },
                        }
                    } else {
                        break;
                    }
                },
                _ => {
                    break;
                },
            }
        }
        Ok(())
    }

    /// Reduces stacked operators until the matching `(` is found and
    /// discarded, as [`spec_close_paren`] says.
    fn close_paren(&mut self) -> (r: Result<(), ParseError>)
        requires
            old(self).wf(),
        ensures
            final(self).wf(),
            final(self).in_bytes() == old(self).in_bytes(),
            final(self).in_pos() == old(self).in_pos(),
            match spec_close_paren(old(self).ops(), old(self).outs()) {
                Ok(st) => r is Ok && final(self).ops() == st.0 && final(self).outs() == st.1,
                Err(e) => r == Err::<(), ParseError>(e),
            },
    {
        loop
            invariant_except_break
                spec_close_paren(self.ops(), self.outs()) == spec_close_paren(
                    old(self).ops(),
                    old(self).outs(),
                ),
            invariant
                self.wf(),
                self.in_bytes() == old(self).in_bytes(),
                self.in_pos() == old(self).in_pos(),
            ensures
                self.wf(),
                self.in_bytes() == old(self).in_bytes(),
                self.in_pos() == old(self).in_pos(),
                spec_close_paren(old(self).ops(), old(self).outs()) == Ok::<
                    (Seq<Token>, Seq<ASTNode>),
                    ParseError,
                >((self.ops(), self.outs())),
            decreases self.ops().len(),
        {
            if self.operator_stack.len() == 0 {
                return Err(ParseError::UnmatchedRightParen);
            }
            let ghost ops_before = self.ops();
            let op = self.operator_stack.pop().unwrap();
            proof {
                assert(self.operator_stack@ =~= ops_before.drop_last());
            }
            match op {
                Token::LPar => {
                    break;
                },
                _ => {
                    match self.add_node(&op) {
                        Ok(_) => {},
                        Err(e) => {
                            return Err(e);
                        },
                    }
                },
            }
        }
        Ok(())
    }

    /// At end of input: reduces what operators remain and returns the one
    /// tree left on the output stack, as [`spec_drain`] says.
    fn drain_ops(&mut self) -> (r: Result<ASTNode, ParseError>)
        requires
            old(self).wf(),
        ensures
            final(self).wf(),
            final(self).in_bytes() == old(self).in_bytes(),
            final(self).in_pos() == old(self).in_pos(),
            r == spec_drain(old(self).ops(), old(self).outs()),
    {
        loop
            invariant_except_break
                spec_drain(self.ops(), self.outs()) == spec_drain(old(self).ops(), old(self).outs()),
            invariant
                self.wf(),
                self.in_bytes() == old(self).in_bytes(),
                self.in_pos() == old(self).in_pos(),
            ensures
                self.wf(),
                self.in_bytes() == old(self).in_bytes(),
                self.in_pos() == old(self).in_pos(),
                self.ops().len() == 0,
                spec_drain(old(self).ops(), old(self).outs()) == spec_drain(
                    self.ops(),
                    self.outs(),
                ),
            decreases self.ops().len(),
        {
            if self.operator_stack.len() == 0 {
                break;
            }
            let ghost ops_before = self.ops();
            let op = self.operator_stack.pop().unwrap();
            proof {
                assert(self.operator_stack@ =~= ops_before.drop_last());
            }
            match op {
                Token::LPar => {
                    return Err(ParseError::UnmatchedLeftParen);
                },
                _ => {
                    match self.add_node(&op) {
                        Ok(_) => {},
                        Err(e) => {
                            return Err(e);
                        },
                    }
                },
            }
        }
        if self.output_queue.len() == 0 {
            return Err(ParseError::EmptyExpression);
        }
        if self.output_queue.len() > 1 {
            return Err(ParseError::ExtraOperand);
        }
        let ast = self.output_queue.pop().unwrap();
        Ok(ast)
    }
}

} // verus!
