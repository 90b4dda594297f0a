//! Tokens and the expression shapes the evaluator consumes.
//!
//! The parser that turns tokens into expressions is an external collaborator;
//! only the shapes it must produce are defined here.

use crate::error::Pos;
use vstd::prelude::*;

verus! {

/// Every operator of the language, prefix and infix alike.
#[derive(Clone, Copy, PartialEq, Eq, Structural, Debug)]
pub enum Operator {
    Add,
    Sub,
    Mul,
    Div,
    IntDiv,
    Mod,
    Pow,
    BitShiftL,
    BitShiftR,
    BAnd,
    BOr,
    BXor,
    BNot,
    LAnd,
    LOr,
    LNot,
    As,
    Eql,
    NEql,
    LT,
    LE,
    GT,
    GE,
}

/// The kind tag of a token.
#[derive(Clone, Copy, PartialEq, Eq, Structural, Debug)]
pub enum TokenType {
    Integer,
    Float,
    Identifier,
    TRUE,
    FALSE,
    LP,
    RP,
    Operator(Operator),
    EOF,
}

/// A lexical token: a kind, the matched text, and the span it came from.
/// Numeric, identifier and keyword tokens carry their matched text; operator,
/// parenthesis and end-of-file tokens carry empty text, since the kind alone
/// identifies them.
#[derive(Debug)]
pub struct Token {
    pub tok_type: TokenType,
    pub value: String,
    pub pos: Pos,
}

/// The mathematical model of a [`Token`].
pub struct TokenModel {
    pub tok_type: TokenType,
    pub value: Seq<char>,
    pub start: int,
    pub end: int,
}

impl View for Token {
    type V = TokenModel;

    open spec fn view(&self) -> TokenModel {
        TokenModel {
            tok_type: self.tok_type,
            value: self.value@,
            start: self.pos.start as int,
            end: self.pos.end as int,
        }
    }
}

impl Token {
    pub fn new(tok_type: TokenType, value: String, start: usize, end: usize) -> (t: Token)
        ensures
            t.tok_type == tok_type,
            t.value == value,
            t.pos == (Pos { start, end }),
    {
        Token { tok_type, value, pos: Pos { start, end } }
    }
}

/// An infix application: `left op right`.
pub struct Infix {
    pub op: Operator,
    pub left: Box<Expression>,
    pub right: Box<Expression>,
}

/// A prefix application: `op value`.
pub struct Prefix {
    pub op: Operator,
    pub value: Box<Expression>,
}

/// The shape of an expression node.
///
/// Numeric literals keep their original text: they are parsed only at
/// evaluation time, so that a malformed literal surfaces there with its span.
pub enum ExpressionKind {
    True,
    False,
    Integer(String),
    Float(String),
    Ident(String),
    InfixOp(Infix),
    PrefixOp(Prefix),
}

/// An expression node together with the span of source text it covers.
pub struct Expression {
    pub expr: ExpressionKind,
    pub pos: Pos,
}

} // verus!
