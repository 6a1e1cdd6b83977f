//! Token kinds of the source language.
//!
//! The syntax tree names its operators by the kind of the token that wrote
//! them, so the kinds are shared between the tokenizer's clients and the
//! code generator.

use vstd::prelude::*;

verus! {

/// The kind of a token that carries no payload of its own, plus the three
/// kinds (`Integer`, `Name`, `Str`) that stand for the payload-carrying
/// tokens when a kind is all that is asked for.
#[derive(Clone, Copy, Debug, PartialEq, Eq, Structural)]
pub enum FlagType {
    Integer,
    Name,
    Str,
    Plus,
    Minus,
    Mul,
    Div,
    LParen,
    RParen,
    True,
    False,
    Assign,
    Comma,
    Colons,
    Dot,
    ThreeDot,
    EQ,
    NEQ,
    LESS,
    LEQ,
    GREATER,
    GEQ,
    AND,
    OR,
    Not,
    Local,
    Function,
    Return,
    If,
    Then,
    Elseif,
    Else,
    While,
    Do,
    For,
    In,
    Break,
    End,
    EOF,
}

/// A token of the source text. A number is kept as the bit pattern of its
/// IEEE-754 double.
#[derive(Clone, Debug)]
pub enum Token {
    Num(u64),
    Name(String),
    Str(String),
    Flag(FlagType),
}

impl Token {
    /// The kind under which a token is matched: the payload-carrying tokens
    /// answer to `Integer`, `Name` and `Str`.
    pub open spec fn kind(self) -> FlagType {
        match self {
            Token::Num(_) => FlagType::Integer,
            Token::Name(_) => FlagType::Name,
            Token::Str(_) => FlagType::Str,
            Token::Flag(t) => t,
        }
    }

    /// A copy of the token.
    pub fn duplicate(&self) -> (r: Token)
        ensures
            r == *self,
    {
        match self {
            Token::Num(n) => Token::Num(*n),
            Token::Name(id) => Token::Name(id.clone()),
            Token::Str(s) => Token::Str(s.clone()),
            Token::Flag(t) => Token::Flag(*t),
        }
    }

    /// Computes [`Token::kind`].
    pub fn flag(&self) -> (r: FlagType)
        ensures
            r == self.kind(),
    {
        match self {
            Token::Num(_) => FlagType::Integer,
            Token::Name(_) => FlagType::Name,
            Token::Str(_) => FlagType::Str,
            Token::Flag(t) => *t,
        }
    }
}

} // verus!
