//! The syntax tree that the code generator consumes, and the parser that
//! builds it from tokens.
//!
//! The parser is a recursive descent over a run of tokens. What each rule
//! accepts is written down in [`model`]; [`rules`] unfolds the model by one
//! step for the proofs.

pub mod types;
pub mod model;
pub mod rules;
pub mod laws;
mod expressions;
mod statements;

use self::laws::lemma_program_errors;
use self::model::{p_eat, p_program, peek, Parsed};
use self::types::{
    exprs_view, plain_block, plain_expr, plain_exprs, plain_node, plain_stat, Block, BlockView,
    Expr, ExprView, Name, Node, ParserError, Stat, StatView,
};
use crate::tokens::{FlagType, Token};
use vstd::prelude::*;

verus! {

/// A recursive-descent parser over a run of tokens.
pub struct Parser {
    tokens: Vec<Token>,
    pos: usize,
}

/// A rule was applied as its model says: the parser stands where the model
/// stands, over the same tokens, and not behind where it stood.
pub open spec fn advanced<T>(model: Parsed<T>, before: Parser, after: Parser) -> bool {
    &&& after.tokens() == before.tokens()
    &&& after.position() == model.1
    &&& before.position() <= after.position() <= after.tokens().len()
}

/// A rule that gives an expression was applied as its model says.
pub open spec fn gives_expr(
    model: Parsed<ExprView>,
    before: Parser,
    after: Parser,
    r: Result<Box<Expr>, ParserError>,
) -> bool {
    &&& advanced(model, before, after)
    &&& match model.0 {
        Ok(view) => r matches Ok(expr) && expr@ == view && plain_expr(*expr),
        Err(e) => r matches Err(err) && err == e,
    }
}

/// A rule that gives expressions was applied as its model says.
pub open spec fn gives_exprs(
    model: Parsed<Seq<ExprView>>,
    before: Parser,
    after: Parser,
    r: Result<Vec<Box<Expr>>, ParserError>,
) -> bool {
    &&& advanced(model, before, after)
    &&& match model.0 {
        Ok(view) => r matches Ok(list) && exprs_view(list@) == view && plain_exprs(list@),
        Err(e) => r matches Err(err) && err == e,
    }
}

/// A rule that gives names was applied as its model says.
pub open spec fn gives_names(
    model: Parsed<Seq<Name>>,
    before: Parser,
    after: Parser,
    r: Result<Vec<Name>, ParserError>,
) -> bool {
    &&& advanced(model, before, after)
    &&& match model.0 {
        Ok(view) => r matches Ok(list) && list@ == view,
        Err(e) => r matches Err(err) && err == e,
    }
}

/// A rule that gives a statement was applied as its model says.
pub open spec fn gives_stat(
    model: Parsed<StatView>,
    before: Parser,
    after: Parser,
    r: Result<Box<Stat>, ParserError>,
) -> bool {
    &&& advanced(model, before, after)
    &&& match model.0 {
        Ok(view) => r matches Ok(stat) && stat@ == view && plain_stat(*stat),
        Err(e) => r matches Err(err) && err == e,
    }
}

/// A rule that gives a block was applied as its model says.
pub open spec fn gives_block(
    model: Parsed<BlockView>,
    before: Parser,
    after: Parser,
    r: Result<Block, ParserError>,
) -> bool {
    &&& advanced(model, before, after)
    &&& match model.0 {
        Ok(view) => r matches Ok(block) && block@ == view && plain_block(block),
        Err(e) => r matches Err(err) && err == e,
    }
}

impl Parser {
    /// The tokens that are parsed.
    pub closed spec fn tokens(&self) -> Seq<Token> {
        self.tokens@
    }

    /// The position of the next token.
    pub closed spec fn position(&self) -> int {
        self.pos as int
    }

    /// A parser at the first of the tokens.
    pub fn new(tokens: Vec<Token>) -> (parser: Parser)
        ensures
            parser.tokens() == tokens@,
            parser.position() == 0,
    {
        Parser { tokens, pos: 0 }
    }

    /// Parses a program: a block that the tokens start with. Tokens behind
    /// the block are left alone. The program names no register by its
    /// number. A failure is a syntax error or a construct that the parser
    /// does not handle.
    pub fn parse(tokens: Vec<Token>) -> (r: Result<Box<Node>, ParserError>)
        ensures
            match p_program(tokens@) {
                Ok(view) => r matches Ok(node) && node@ == view && plain_node(*node),
                Err(e) => r matches Err(err) && err == e,
            },
            r matches Err(e) ==> e == ParserError::SyntaxError || e == ParserError::ParseFailed,
    {
        proof {
            lemma_program_errors(tokens@);
        }
        let mut obj = Parser::new(tokens);
        obj.program()
    }

    /// A copy of the next token, if there is one.
    pub fn peek_clone(&self) -> (r: Option<Token>)
        ensures
            r == peek(self.tokens(), self.position()),
    {
        if self.pos < self.tokens.len() {
            Some(self.tokens[self.pos].duplicate())
        } else {
            None
        }
    }

    /// The kind of the next token, if there is one.
    pub(crate) fn peek_flag(&self) -> (r: Option<FlagType>)
        ensures
            match peek(self.tokens(), self.position()) {
                Some(token) => r == Some(token.kind()),
                None => r is None,
            },
            r is Some ==> self.position() < self.tokens().len(),
    {
        if self.pos < self.tokens.len() {
            Some(self.tokens[self.pos].flag())
        } else {
            None
        }
    }

    /// Takes the next token if it is of the kind `ft`; a token of another
    /// kind, or none, does not meet the expectation and stays where it is.
    pub(crate) fn eat(&mut self, ft: FlagType) -> (r: Result<(), ParserError>)
        requires
            old(self).position() <= old(self).tokens().len(),
        ensures
            advanced(p_eat(old(self).tokens(), old(self).position(), ft), *old(self), *final(self)),
            r == p_eat(old(self).tokens(), old(self).position(), ft).0,
            r is Ok ==> final(self).position() == old(self).position() + 1,
    {
        if self.pos < self.tokens.len() && self.tokens[self.pos].flag() == ft {
            self.pos = self.pos + 1;
            Ok(())
        } else {
            Err(ParserError::ExpectationUnmeet)
        }
    }

    /// Takes the next token, whatever it is.
    pub(crate) fn skip(&mut self)
        requires
            old(self).position() < old(self).tokens().len(),
        ensures
            final(self).tokens() == old(self).tokens(),
            final(self).position() == old(self).position() + 1,
    {
        let n = self.tokens.len();
        assert(self.pos < n);
        self.pos = self.pos + 1;
    }
}

} // verus!
