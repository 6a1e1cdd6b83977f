//! Laws of the parser.

use crate::parser::model::{p_block_rest, p_program, p_stat};
use crate::parser::rules::{rule_block, rule_block_rest};
use crate::parser::types::{ParserError, StatView};
use crate::tokens::Token;
use vstd::prelude::*;

verus! {

/// A block does not fail on an expectation that is not met: that is how a
/// block ends.
pub proof fn lemma_block_rest_meets(tokens: Seq<Token>, pos: int, stats: Seq<StatView>)
    ensures
        !(p_block_rest(tokens, pos, stats).0 matches Err(ParserError::ExpectationUnmeet)),
    decreases tokens.len() - pos,
{
    rule_block_rest(tokens, pos, stats);
    if let (Ok(stat), p) = p_stat(tokens, pos) {
        if pos < p <= tokens.len() {
            lemma_block_rest_meets(tokens, p, stats.push(stat));
        }
    }
}

/// A program does not fail on an expectation that is not met: an error of
/// the parser is a syntax error or a construct that the parser does not
/// handle.
pub proof fn lemma_program_errors(tokens: Seq<Token>)
    ensures
        p_program(tokens) matches Err(e) ==> e == ParserError::SyntaxError || e
            == ParserError::ParseFailed,
{
    rule_block(tokens, 0);
    lemma_block_rest_meets(tokens, 0, Seq::empty());
}

} // verus!
