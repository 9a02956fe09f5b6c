//! The expression syntax tree that the parser builds.

use vstd::prelude::*;
use crate::token::{Token, SpecToken};

verus! {

/// One node of an expression syntax tree: a numeric literal, a name
/// reference, a unary sign applied to a term, or a binary operator applied to
/// two sub-expressions, tagged with the operator's token.
#[derive(Debug, PartialEq)]
pub enum ASTNode {
    Number(String),
    Identifier(String),
    Unary(Token, Box<ASTNode>),
    Binary(Token, Box<ASTNode>, Box<ASTNode>),
}

/// Mathematical model of an [`ASTNode`].
pub enum SpecAst {
    Number(Seq<char>),
    Identifier(Seq<char>),
    Unary(SpecToken, Box<SpecAst>),
    Binary(SpecToken, Box<SpecAst>, Box<SpecAst>),
}

impl View for ASTNode {
    type V = SpecAst;

    open spec fn view(&self) -> SpecAst
        decreases self,
    {
        match self {
            ASTNode::Number(s) => SpecAst::Number(s@),
            ASTNode::Identifier(s) => SpecAst::Identifier(s@),
            ASTNode::Unary(op, e) => SpecAst::Unary(op@, Box::new((**e)@)),
            ASTNode::Binary(op, l, r) => SpecAst::Binary(op@, Box::new((**l)@), Box::new((**r)@)),
        }
    }
}

} // verus!
