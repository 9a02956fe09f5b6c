//! The precedence-climbing expression parser: consumes the token sequence
//! from a cursor position, never backtracking, and builds one expression
//! syntax tree, or fails with a structural `ParserError`.

use vstd::prelude::*;
use crate::token::{Token, SpecToken, ParserError, tokens_view};
use crate::ast::{ASTNode, SpecAst};

verus! {

/// The infix binding strength of a token: comparisons bind weakest, then the
/// additive operators, then the multiplicative ones; every other token has no
/// infix precedence and ends the expression.
pub open spec fn spec_precedence(t: SpecToken) -> Option<int> {
    match t {
        SpecToken::Eq => Some(20int),
        SpecToken::Neq => Some(20int),
        SpecToken::Lt => Some(20int),
        SpecToken::Gt => Some(20int),
        SpecToken::LtEq => Some(20int),
        SpecToken::GtEq => Some(20int),
        SpecToken::Plus => Some(30int),
        SpecToken::Minus => Some(30int),
        SpecToken::Mult => Some(40int),
        SpecToken::Div => Some(40int),
        _ => None,
    }
}

/// One prefix term at position `i`: a number literal or identifier (one
/// token), a parenthesized sub-expression parsed at minimum precedence 0 and
/// closed by a required `RParen`, or a unary `+`/`-` wrapped around a prefix
/// term. Yields the term and the position just past it; `None` is a
/// structural error.
pub open spec fn spec_parse_prefix(s: Seq<SpecToken>, i: int) -> Option<(SpecAst, int)>
    decreases s.len() - i, 0int,
{
    if !(0 <= i < s.len()) {
        None
    } else {
        match s[i] {
            SpecToken::Number(d) => Some((SpecAst::Number(d), i + 1)),
            SpecToken::Identifier(x) => Some((SpecAst::Identifier(x), i + 1)),
            SpecToken::LParen => match spec_parse_expr(s, i + 1, 0) {
                None => None,
                Some((e, j)) => if j < s.len() && s[j] is RParen {
                    Some((e, j + 1))
                } else {
                    None
                },
            },
            SpecToken::Plus => match spec_parse_prefix(s, i + 1) {
                None => None,
                Some((e, j)) => Some((SpecAst::Unary(SpecToken::Plus, Box::new(e)), j)),
            },
            SpecToken::Minus => match spec_parse_prefix(s, i + 1) {
                None => None,
                Some((e, j)) => Some((SpecAst::Unary(SpecToken::Minus, Box::new(e)), j)),
            },
            _ => None,
        }
    }
}

/// One whole expression at position `i`: a prefix term extended by every
/// following binary operator whose precedence is strictly greater than
/// `min_prec`.
pub open spec fn spec_parse_expr(s: Seq<SpecToken>, i: int, min_prec: int) -> Option<(SpecAst, int)>
    decreases s.len() - i, 1int,
{
    match spec_parse_prefix(s, i) {
        None => None,
        Some((e, j)) => if i < j <= s.len() {
            spec_parse_loop(s, j, min_prec, e)
        } else {
            // a prefix term always advances and stays within the tokens
            None
        },
    }
}

/// The operator loop: with `left` already built and the cursor at `i`, stop
/// when no token follows, the next token has no infix precedence, or its
/// precedence is not strictly greater than `min_prec`; otherwise consume the
/// operator, parse its right-hand side at the operator's own precedence
/// (which makes chains of equal precedence associate to the left), and
/// combine.
pub open spec fn spec_parse_loop(
    s: Seq<SpecToken>,
    i: int,
    min_prec: int,
    left: SpecAst,
) -> Option<(SpecAst, int)>
    decreases s.len() - i, 2int,
{
    if !(0 <= i < s.len()) {
        Some((left, i))
    } else {
        match spec_precedence(s[i]) {
            None => Some((left, i)),
            Some(p) => if p <= min_prec {
                Some((left, i))
            } else {
                match spec_parse_expr(s, i + 1, p) {
                    None => None,
                    Some((r, j)) => if i < j <= s.len() {
                        spec_parse_loop(s, j, min_prec, SpecAst::Binary(s[i], Box::new(left), Box::new(r)))
                    } else {
                        // the right-hand side always advances past the operator
                        None
                    },
                }
            },
        }
    }
}

/// A successful prefix parse lands strictly past its start, within the
/// tokens.
pub proof fn lemma_parse_prefix_range(s: Seq<SpecToken>, i: int)
    ensures
        spec_parse_prefix(s, i) matches Some((e, j)) ==> i < j <= s.len(),
    decreases s.len() - i, 0int,
{
    if 0 <= i < s.len() {
        match s[i] {
            SpecToken::LParen => {
                lemma_parse_expr_range(s, i + 1, 0);
            },
            SpecToken::Plus => {
                lemma_parse_prefix_range(s, i + 1);
            },
            SpecToken::Minus => {
                lemma_parse_prefix_range(s, i + 1);
            },
            _ => {},
        }
    }
}

/// A successful expression parse lands strictly past its start, within the
/// tokens.
pub proof fn lemma_parse_expr_range(s: Seq<SpecToken>, i: int, min_prec: int)
    ensures
        spec_parse_expr(s, i, min_prec) matches Some((e, j)) ==> i < j <= s.len(),
    decreases s.len() - i, 1int,
{
    lemma_parse_prefix_range(s, i);
    match spec_parse_prefix(s, i) {
        None => {},
        Some((e, j)) => {
            if i < j <= s.len() {
                lemma_parse_loop_range(s, j, min_prec, e);
            }
        },
    }
}

/// The operator loop never moves the cursor backwards, nor past the end.
pub proof fn lemma_parse_loop_range(s: Seq<SpecToken>, i: int, min_prec: int, left: SpecAst)
    requires
        0 <= i <= s.len(),
    ensures
        spec_parse_loop(s, i, min_prec, left) matches Some((e, j)) ==> i <= j <= s.len(),
    decreases s.len() - i, 2int,
{
    if 0 <= i < s.len() {
        match spec_precedence(s[i]) {
            None => {},
            Some(p) => if p > min_prec {
                lemma_parse_expr_range(s, i + 1, p);
                match spec_parse_expr(s, i + 1, p) {
                    None => {},
                    Some((r, j)) => {
                        if i < j <= s.len() {
                            lemma_parse_loop_range(
                                s,
                                j,
                                min_prec,
                                SpecAst::Binary(s[i], Box::new(left), Box::new(r)),
                            );
                        }
                    },
                }
            },
        }
    }
}

/// The parser cursor: the token sequence plus a zero-based read position that
/// only ever moves forward.
pub struct Parser {
    pub tokens: Vec<Token>,
    pub index: usize,
}

impl Parser {
    /// The abstract contents of the cursor's token sequence.
    pub open spec fn toks(&self) -> Seq<SpecToken> {
        tokens_view(self.tokens@)
    }

    /// The cursor never stands past the end of the tokens.
    pub open spec fn wf(&self) -> bool {
        self.index <= self.tokens@.len()
    }

    /// A fresh cursor over `tokens`, at position 0.
    pub fn new(tokens: Vec<Token>) -> (p: Parser)
        ensures
            p.toks() == tokens_view(tokens@),
            p.index == 0,
            p.wf(),
    {
        Parser { tokens, index: 0 }
    }

    /// Parses exactly one expression starting at the cursor and leaves the
    /// cursor just past the parsed tokens; the caller is responsible for
    /// checking whether unconsumed tokens remain. Every structural mismatch
    /// fails with a `ParserError` and no partial tree.
    pub fn parse(&mut self) -> (r: Result<ASTNode, ParserError>)
        requires
            old(self).wf(),
        ensures
            final(self).toks() == old(self).toks(),
            final(self).wf(),
            match spec_parse_expr(old(self).toks(), old(self).index as int, 0) {
                Some((a, j)) => r matches Ok(node) && node@ == a && final(self).index as int == j,
                None => r matches Err(e) && e is ParserError,
            },
    {
        self.parse_expr(0)
    }

    /// Parses one expression whose binary operators all bind strictly
    /// tighter than `precedence`.
    fn parse_expr(&mut self, precedence: u8) -> (r: Result<ASTNode, ParserError>)
        requires
            old(self).wf(),
        ensures
            final(self).toks() == old(self).toks(),
            final(self).wf(),
            match spec_parse_expr(old(self).toks(), old(self).index as int, precedence as int) {
                Some((a, j)) => r matches Ok(node) && node@ == a && final(self).index as int == j,
                None => r matches Err(e) && e is ParserError,
            },
        decreases old(self).tokens@.len() - old(self).index, 1int,
    {
        let ghost s = self.toks();
        let ghost i0 = self.index as int;
        let mut expr = match self.parse_prefix() {
            Ok(e) => e,
            Err(e) => {
                return Err(e);
            },
        };
        proof {
            lemma_parse_prefix_range(s, i0);
        }
        loop
            invariant
                self.wf(),
                s == old(self).toks(),
                i0 == old(self).index as int,
                self.toks() == s,
                i0 < self.index <= self.tokens@.len(),
                spec_parse_expr(s, i0, precedence as int) == spec_parse_loop(
                    s,
                    self.index as int,
                    precedence as int,
                    expr@,
                ),
            decreases self.tokens@.len() - self.index,
        {
            let cont = match self.peek_token() {
                None => false,
                Some(tok) => match self.get_precedence(tok) {
                    Err(_) => false,
                    Ok(p) => p > precedence,
                },
            };
            if !cont {
                return Ok(expr);
            }
            let ghost cur = self.index as int;
            let tok = self.peek_token().unwrap();
            let next_precedence = match self.get_precedence(tok) {
                Ok(p) => p,
                Err(_) => {
                    return vstd::pervasive::unreached();
                },
            };
            expr = match self.parse_infix(expr, next_precedence) {
                Ok(e) => e,
                Err(e) => {
                    return Err(e);
                },
            };
            proof {
                lemma_parse_expr_range(s, cur + 1, next_precedence as int);
            }
        }
    }

    /// Parses one prefix term: a number literal, an identifier, a
    /// parenthesized sub-expression with its required closing `RParen`, or a
    /// unary `+`/`-` applied to a prefix term; any other leading token is a
    /// structural error.
    fn parse_prefix(&mut self) -> (r: Result<ASTNode, ParserError>)
        requires
            old(self).wf(),
        ensures
            final(self).toks() == old(self).toks(),
            final(self).wf(),
            match spec_parse_prefix(old(self).toks(), old(self).index as int) {
                Some((a, j)) => r matches Ok(node) && node@ == a && final(self).index as int == j,
                None => r matches Err(e) && e is ParserError,
            },
        decreases old(self).tokens@.len() - old(self).index, 0int,
    {
        let ghost s = self.toks();
        let ghost i0 = self.index as int;
        match self.next_token() {
            None => Err(ParserError::ParserError(String::from_str(
                "unexpected end of input in prefix position",
            ))),
            Some(Token::Number(d)) => Ok(ASTNode::Number(d)),
            Some(Token::Identifier(x)) => Ok(ASTNode::Identifier(x)),
            Some(Token::LParen) => {
                let inner = match self.parse_expr(0) {
                    Ok(e) => e,
                    Err(e) => {
                        return Err(e);
                    },
                };
                proof {
                    lemma_parse_expr_range(s, i0 + 1, 0);
                }
                match self.next_token() {
                    Some(Token::RParen) => Ok(inner),
                    _ => Err(ParserError::ParserError(String::from_str(
                        "expected a closing parenthesis",
                    ))),
                }
            },
            Some(Token::Plus) => {
                let term = match self.parse_prefix() {
                    Ok(e) => e,
                    Err(e) => {
                        return Err(e);
                    },
                };
                Ok(ASTNode::Unary(Token::Plus, Box::new(term)))
            },
            Some(Token::Minus) => {
                let term = match self.parse_prefix() {
                    Ok(e) => e,
                    Err(e) => {
                        return Err(e);
                    },
                };
                Ok(ASTNode::Unary(Token::Minus, Box::new(term)))
            },
            Some(_) => Err(ParserError::ParserError(String::from_str(
                "unexpected token in prefix position",
            ))),
        }
    }

    /// Consumes the binary operator under the cursor (whose precedence must
    /// be `precedence`), parses the right-hand side at that precedence, and
    /// combines it with the left-hand expression already built.
    fn parse_infix(&mut self, expr: ASTNode, precedence: u8) -> (r: Result<ASTNode, ParserError>)
        requires
            old(self).wf(),
            old(self).index < old(self).tokens@.len(),
            spec_precedence(old(self).toks()[old(self).index as int]) == Some(precedence as int),
        ensures
            final(self).toks() == old(self).toks(),
            final(self).wf(),
            match spec_parse_expr(old(self).toks(), old(self).index + 1, precedence as int) {
                Some((a, j)) => r matches Ok(node) && node@ == SpecAst::Binary(
                    old(self).toks()[old(self).index as int],
                    Box::new(expr@),
                    Box::new(a),
                ) && final(self).index as int == j,
                None => r matches Err(e) && e is ParserError,
            },
        decreases old(self).tokens@.len() - old(self).index, 0int,
    {
        let op = match self.next_token() {
            Some(t) => t,
            None => {
                return vstd::pervasive::unreached();
            },
        };
        let rhs = match self.parse_expr(precedence) {
            Ok(e) => e,
            Err(e) => {
                return Err(e);
            },
        };
        Ok(ASTNode::Binary(op, Box::new(expr), Box::new(rhs)))
    }

    /// The infix precedence of a token: 20 for the comparisons, 30 for the
    /// additive operators, 40 for the multiplicative ones; any other token is
    /// not a binding operator and yields a `ParserError`.
    pub fn get_precedence(&self, tok: &Token) -> (r: Result<u8, ParserError>)
        ensures
            match spec_precedence(tok@) {
                Some(p) => r matches Ok(v) && v as int == p,
                None => r matches Err(e) && e is ParserError,
            },
    {
        match tok {
            Token::Eq | Token::Lt | Token::LtEq | Token::Neq | Token::Gt | Token::GtEq => Ok(20),
            Token::Plus | Token::Minus => Ok(30),
            Token::Mult | Token::Div => Ok(40),
            _ => Err(ParserError::ParserError(String::from_str(
                "token has no infix precedence",
            ))),
        }
    }

    /// Returns the token under the cursor without consuming it, or `None` at
    /// the end of the sequence.
    pub fn peek_token(&self) -> (r: Option<&Token>)
        requires
            self.wf(),
        ensures
            match r {
                Some(tok) => self.index < self.tokens@.len() && tok@ == self.toks()[self.index as int],
                None => self.index == self.tokens@.len(),
            },
    {
        if self.index < self.tokens.len() {
            Some(&self.tokens[self.index])
        } else {
            None
        }
    }

    /// Consumes and returns the token under the cursor, or `None` at the end
    /// of the sequence.
    pub fn next_token(&mut self) -> (r: Option<Token>)
        requires
            old(self).wf(),
        ensures
            final(self).toks() == old(self).toks(),
            final(self).wf(),
            match r {
                Some(tok) => old(self).index < old(self).tokens@.len() && tok@ == old(self).toks()[
                    old(self).index as int
                ] && final(self).index == old(self).index + 1,
                None => old(self).index == old(self).tokens@.len() && final(self).index == old(
                    self,
                ).index,
            },
    {
        if self.index < self.tokens.len() {
            self.index = self.index + 1;
            Some(self.tokens[self.index - 1].clone())
        } else {
            None
        }
    }
}

} // verus!
