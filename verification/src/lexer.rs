//! Lexer: turns an input string into a stream of tokens.
//!
//! The input is a byte buffer; whitespace between tokens is skipped.  The
//! single-character tokens map directly; an alphabetic run (plus `_` and `|`)
//! is read as an identifier and must spell `true`, `false` or `||`.  Any
//! other byte is reported as a [`LexError`] carrying its position.

use vstd::prelude::*;

verus! {

/// The kinds of token recognized by the lexer.  The operator tokens carry
/// their precedence, read only during parsing: `*` binds tighter than `+`,
/// which binds tighter than `||`.
#[derive(Debug, PartialEq, Copy, Clone)]
pub enum Token {
    One,
    Zero,
    LPar,
    RPar,
    /// `*`, precedence 2.
    Mult(u8),
    /// `+`, precedence 1.
    Add(u8),
    /// `||`, precedence 0.
    Or(u8),
    True,
    False,
    /// End of input; returned again on every later call.
    Eof,
}

/// A byte the lexer does not recognize: the offending byte and its position
/// in the input buffer.  For a rejected identifier the position and byte are
/// those of its first character.
#[derive(Debug, PartialEq, Copy, Clone)]
pub struct LexError {
    pub position: usize,
    pub byte: u8,
}

/// The bytes skipped between tokens: space, tab, line feed, form feed and
/// carriage return.
pub open spec fn is_whitespace_byte(b: u8) -> bool {
    b == 32 || b == 9 || b == 10 || b == 12 || b == 13
}

/// The bytes an identifier run is made of: ASCII letters, `_` and `|`.
pub open spec fn is_ident_byte(b: u8) -> bool {
    (('a' as u8) <= b && b <= ('z' as u8)) || (('A' as u8) <= b && b <= ('Z' as u8)) || b == ('_' as u8) || b == ('|' as u8)
}

/// The first position at or after `i` that does not hold whitespace
/// (or the end of the input).
pub open spec fn spec_skip_ws(s: Seq<u8>, i: nat) -> nat
    decreases s.len() - i,
    when i <= s.len()
{
    if i < s.len() && is_whitespace_byte(s[i as int]) {
        spec_skip_ws(s, i + 1)
    } else {
        i
    }
}

/// Skipping whitespace never moves backwards nor past the end.
pub proof fn lemma_skip_ws_bounds(s: Seq<u8>, i: nat)
    requires
        i <= s.len(),
    ensures
        i <= spec_skip_ws(s, i) <= s.len(),
    decreases s.len() - i,
{
    if i < s.len() && is_whitespace_byte(s[i as int]) {
        lemma_skip_ws_bounds(s, i + 1);
    }
}

/// The end of the identifier run beginning at `i`: the first position at or
/// after `i` that does not hold an identifier byte.
pub open spec fn spec_ident_end(s: Seq<u8>, i: nat) -> nat
    decreases s.len() - i,
    when i <= s.len()
{
    if i < s.len() && is_ident_byte(s[i as int]) {
        spec_ident_end(s, i + 1)
    } else {
        i
    }
}

/// An identifier run never moves backwards nor past the end.
pub proof fn lemma_ident_end_bounds(s: Seq<u8>, i: nat)
    requires
        i <= s.len(),
    ensures
        i <= spec_ident_end(s, i) <= s.len(),
    decreases s.len() - i,
{
    if i < s.len() && is_ident_byte(s[i as int]) {
        lemma_ident_end_bounds(s, i + 1);
    }
}

/// Classifies the identifier run `s[i..j]`: it must spell `true`, `false`
/// or `||`; any other run is a lexical error reported at its start.
pub open spec fn spec_ident_token(s: Seq<u8>, i: nat, j: nat) -> Result<Token, LexError> {
    if j - i == 4 && s[i as int] == ('t' as u8) && s[i as int + 1] == ('r' as u8) && s[i as int + 2] == ('u' as u8)
        && s[i as int + 3] == ('e' as u8) {
        Ok(Token::True)
    } else if j - i == 5 && s[i as int] == ('f' as u8) && s[i as int + 1] == ('a' as u8) && s[i as int + 2] == ('l' as u8)
        && s[i as int + 3] == ('s' as u8) && s[i as int + 4] == ('e' as u8) {
        Ok(Token::False)
    } else if j - i == 2 && s[i as int] == ('|' as u8) && s[i as int + 1] == ('|' as u8) {
        Ok(Token::Or(0))
    } else {
        Err(LexError { position: i as usize, byte: s[i as int] })
    }
}

/// The token found at position `i` (no whitespace skipped here), together
/// with the position of the first byte after it.  At the end of the buffer
/// the token is `Eof` and the position stays, so later calls keep returning
/// `Eof`; a zero byte inside the buffer also reads as `Eof`, but is consumed.
pub open spec fn spec_token_at(s: Seq<u8>, i: nat) -> (Result<Token, LexError>, nat) {
    if i >= s.len() {
        (Ok(Token::Eof), i)
    } else {
        let b = s[i as int];
        if b == ('(' as u8) {
            (Ok(Token::LPar), i + 1)
        } else if b == (')' as u8) {
            (Ok(Token::RPar), i + 1)
        } else if b == ('*' as u8) {
            (Ok(Token::Mult(2)), i + 1)
        } else if b == ('+' as u8) {
            (Ok(Token::Add(1)), i + 1)
        } else if b == ('0' as u8) {
            (Ok(Token::Zero), i + 1)
        } else if b == ('1' as u8) {
            (Ok(Token::One), i + 1)
        } else if is_ident_byte(b) {
            (spec_ident_token(s, i, spec_ident_end(s, i)), spec_ident_end(s, i))
        } else if b == 0 {
            (Ok(Token::Eof), i + 1)
        } else {
            (Err(LexError { position: i as usize, byte: b }), i + 1)
        }
    }
}

/// What one call of [`Lexer::next_token`] does to a lexer over bytes `s` at
/// position `pos`: skip whitespace, then read the token there.  The first
/// component is the returned token, the second the lexer's new position.
pub open spec fn spec_next_token(s: Seq<u8>, pos: nat) -> (Result<Token, LexError>, nat) {
    spec_token_at(s, spec_skip_ws(s, pos))
}

/// Reading one token keeps the position inside the buffer, and any token
/// other than `Eof` strictly advances it — the measure behind every loop
/// that consumes tokens.
pub proof fn lemma_next_token_bounds(s: Seq<u8>, pos: nat)
    requires
        pos <= s.len(),
    ensures
        pos <= spec_next_token(s, pos).1 <= s.len(),
        (spec_next_token(s, pos).0 matches Ok(t) && !(t matches Token::Eof)) ==> spec_next_token(
            s,
            pos,
        ).1 > pos,
{
    lemma_skip_ws_bounds(s, pos);
    let i = spec_skip_ws(s, pos);
    if i < s.len() && is_ident_byte(s[i as int]) {
        lemma_ident_end_bounds(s, i + 1);
    }
}

/// The lexer: the input byte buffer and the position of the next unread
/// byte.
pub struct Lexer {
    input: Vec<u8>,
    position: usize,
}

impl Lexer {
    /// The input buffer, as a sequence of bytes.
    pub closed spec fn bytes(&self) -> Seq<u8> {
        self.input@
    }

    /// The position of the next unread byte.
    pub closed spec fn pos(&self) -> nat {
        self.position as nat
    }

    /// Well-formedness: the position never leaves the buffer (the end
    /// position included).
    pub open spec fn wf(&self) -> bool {
        self.pos() <= self.bytes().len()
    }

    /// Creates a lexer over the UTF-8 bytes of `input`, positioned at the
    /// start.  For an ASCII string the byte sequence is the characters
    /// themselves.
    pub fn new(input: String) -> (lex: Lexer)
        ensures
            lex.wf(),
            lex.pos() == 0,
            lex.bytes() == vstd::utf8::encode_utf8(input@),
            vstd::utf8::is_ascii_chars(input@) ==> lex.bytes() == Seq::new(
                input@.len(),
                |i: int| input@[i] as u8,
            ),
    {
        let bytes = input.as_str().as_bytes_vec();
        proof {
            if vstd::utf8::is_ascii_chars(input@) {
                vstd::utf8::is_ascii_chars_encode_utf8(input@);
            }
        }
        Lexer { input: bytes, position: 0 }
    }

    /// Retrieves the next token, skipping leading whitespace and advancing
    /// the position; returns `Eof` at (and ever after) the end of the input,
    /// and a [`LexError`] on a byte or identifier outside the language.
    pub fn next_token(&mut self) -> (r: Result<Token, LexError>)
        requires
            old(self).wf(),
        ensures
            final(self).wf(),
            final(self).bytes() == old(self).bytes(),
            r == spec_next_token(old(self).bytes(), old(self).pos()).0,
            final(self).pos() == spec_next_token(old(self).bytes(), old(self).pos()).1,
    {
        self.skip_whitespace();

        let ghost s = self.bytes();
        let ghost i = self.pos();

        if self.position >= self.input.len() {
            return Ok(Token::Eof);
        }
        let b = self.input[self.position];
        if b == ('(' as u8) {
            self.read_char();
            Ok(Token::LPar)
        } else if b == (')' as u8) {
            self.read_char();
            Ok(Token::RPar)
        } else if b == ('*' as u8) {
            self.read_char();
            Ok(Token::Mult(2))
        } else if b == ('+' as u8) {
            self.read_char();
            Ok(Token::Add(1))
        } else if b == ('0' as u8) {
            self.read_char();
            Ok(Token::Zero)
        } else if b == ('1' as u8) {
            self.read_char();
            Ok(Token::One)
        } else if byte_is_ident(b) {
            let start = self.read_ident();
            proof {
                lemma_ident_end_bounds(s, i + 1);
            }
            let len: usize = self.position - start;
            if len == 4 && self.input[start] == ('t' as u8) && self.input[start + 1] == ('r' as u8)
                && self.input[start + 2] == ('u' as u8) && self.input[start + 3] == ('e' as u8) {
                Ok(Token::True)
            } else if len == 5 && self.input[start] == ('f' as u8) && self.input[start + 1] == ('a' as u8)
                && self.input[start + 2] == ('l' as u8) && self.input[start + 3] == ('s' as u8)
                && self.input[start + 4] == ('e' as u8) {
                Ok(Token::False)
            } else if len == 2 && self.input[start] == ('|' as u8) && self.input[start + 1] == ('|' as u8) {
                Ok(Token::Or(0))
            } else {
                Err(LexError { position: start, byte: b })
            }
        } else if b == 0 {
            self.read_char();
            Ok(Token::Eof)
        } else {
            let err = LexError { position: self.position, byte: b };
            self.read_char();
            Err(err)
        }
    }

    /// Skips whitespace bytes, stopping at the first byte of the next token
    /// or at the end of the input.
    fn skip_whitespace(&mut self)
        requires
            old(self).wf(),
        ensures
            final(self).wf(),
            final(self).bytes() == old(self).bytes(),
            final(self).pos() == spec_skip_ws(old(self).bytes(), old(self).pos()),
    {
        while self.position < self.input.len() && byte_is_whitespace(self.input[self.position])
            invariant
                self.wf(),
                self.bytes() == old(self).bytes(),
                spec_skip_ws(self.bytes(), self.pos()) == spec_skip_ws(
                    old(self).bytes(),
                    old(self).pos(),
                ),
            decreases self.input.len() - self.position,
        {
            self.position = self.position + 1;
        }
    }

    /// Reads an identifier run: advances the position to the first byte
    /// past the run and returns the position where the run began.
    fn read_ident(&mut self) -> (start: usize)
        requires
            old(self).wf(),
        ensures
            final(self).wf(),
            final(self).bytes() == old(self).bytes(),
            start == old(self).pos(),
            final(self).pos() == spec_ident_end(old(self).bytes(), old(self).pos()),
    {
        let start = self.position;
        while self.position < self.input.len() && byte_is_ident(self.input[self.position])
            invariant
                self.wf(),
                self.bytes() == old(self).bytes(),
                start == old(self).position,
                spec_ident_end(self.bytes(), self.pos()) == spec_ident_end(
                    old(self).bytes(),
                    old(self).pos(),
                ),
            decreases self.input.len() - self.position,
        {
            self.position = self.position + 1;
        }
        start
    }

    /// Advances the position by one byte; at the end of the input the
    /// position stays where it is.
    fn read_char(&mut self)
        requires
            old(self).wf(),
        ensures
            final(self).wf(),
            final(self).bytes() == old(self).bytes(),
            old(self).pos() < old(self).bytes().len() ==> final(self).pos() == old(self).pos() + 1,
            old(self).pos() >= old(self).bytes().len() ==> final(self).pos() == old(self).pos(),
    {
        if self.position < self.input.len() {
            self.position = self.position + 1;
        }
    }
}

/// Whether `b` is one of the whitespace bytes the lexer skips.
fn byte_is_whitespace(b: u8) -> (r: bool)
    ensures
        r == is_whitespace_byte(b),
{
    b == 32 || b == 9 || b == 10 || b == 12 || b == 13
}

/// Whether `b` can stand in an identifier run.
fn byte_is_ident(b: u8) -> (r: bool)
    ensures
        r == is_ident_byte(b),
{
    (('a' as u8) <= b && b <= ('z' as u8)) || (('A' as u8) <= b && b <= ('Z' as u8)) || b == ('_' as u8) || b == ('|' as u8)
}

} // verus!
