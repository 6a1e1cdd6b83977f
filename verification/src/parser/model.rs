//! What the parser accepts, written as functions of the tokens.
//!
//! Each function takes the tokens and the position of the next one, and
//! gives what is parsed from there, or the error that stopped it, together
//! with the position that was reached: a rule that fails may have taken
//! tokens, and the rule around it goes on from there. The parser in
//! [`crate::parser`] is proved to compute exactly these functions.

use crate::parser::types::{
    BlockView, ExprView, Name, NodeView, ParserError, PrefixExp, StatView, VarView,
};
use crate::tokens::{FlagType, Token};
use vstd::prelude::*;

verus! {

/// What a rule gives: its result or its error, and the position reached.
pub type Parsed<T> = (Result<T, ParserError>, int);

/// The next token, if there is one.
pub open spec fn peek(tokens: Seq<Token>, pos: int) -> Option<Token> {
    if 0 <= pos < tokens.len() {
        Some(tokens[pos])
    } else {
        None
    }
}

/// Whether the next token is the flag `flag`.
pub open spec fn next_is(tokens: Seq<Token>, pos: int, flag: FlagType) -> bool {
    peek(tokens, pos) == Some(Token::Flag(flag))
}

/// The position that a rule reached: never behind `floor`, where the rule
/// started, and never behind the last token.
pub open spec fn reached(tokens: Seq<Token>, pos: int, floor: int) -> int {
    if pos < floor || floor > tokens.len() {
        floor
    } else if pos > tokens.len() {
        tokens.len() as int
    } else {
        pos
    }
}

/// Takes the next token if it is of the kind `flag`.
pub open spec fn p_eat(tokens: Seq<Token>, pos: int, flag: FlagType) -> Parsed<()> {
    match peek(tokens, pos) {
        Some(token) => if token.kind() == flag {
            (Ok(()), pos + 1)
        } else {
            (Err(ParserError::ExpectationUnmeet), pos)
        },
        None => (Err(ParserError::ExpectationUnmeet), pos),
    }
}

/// name: Name
pub open spec fn p_name(tokens: Seq<Token>, pos: int) -> Parsed<Name> {
    match peek(tokens, pos) {
        Some(Token::Name(id)) => (Ok(id), pos + 1),
        _ => (Err(ParserError::SyntaxError), pos),
    }
}

/// factor: (Plus | Minus) factor | Number | String | True | False | prefixexp
#[verifier::opaque]
pub open spec fn p_factor(tokens: Seq<Token>, pos: int) -> Parsed<ExprView>
    decreases tokens.len() - pos, 13int,
{
    match peek(tokens, pos) {
        Some(Token::Num(n)) => (Ok(ExprView::Num(n)), pos + 1),
        Some(Token::Str(s)) => (Ok(ExprView::Str(s)), pos + 1),
        Some(Token::Name(_)) => match p_prefixexp(tokens, pos) {
            (Ok((node, _)), p) => (Ok(node), p),
            (Err(e), p) => (Err(e), p),
        },
        Some(Token::Flag(flag)) => if flag == FlagType::Plus || flag == FlagType::Minus {
            match p_factor(tokens, pos + 1) {
                (Ok(node), p) => (Ok(ExprView::UnaryOp(flag, Box::new(node))), p),
                (Err(e), p) => (Err(e), p),
            }
        } else if flag == FlagType::LParen {
            match p_prefixexp(tokens, pos) {
                (Ok((node, _)), p) => (Ok(node), p),
                (Err(e), p) => (Err(e), p),
            }
        } else if flag == FlagType::True {
            (Ok(ExprView::Boole(true)), pos + 1)
        } else if flag == FlagType::False {
            (Ok(ExprView::Boole(false)), pos + 1)
        } else {
            (Err(ParserError::SyntaxError), pos)
        },
        None => (Err(ParserError::SyntaxError), pos),
    }
}

/// term: factor {(Mul | Div) factor}
#[verifier::opaque]
pub open spec fn p_term(tokens: Seq<Token>, pos: int) -> Parsed<ExprView>
    decreases tokens.len() - pos, 15int,
{
    match p_factor(tokens, pos) {
        (Ok(node), p) => p_term_rest(tokens, reached(tokens, p, pos), node),
        (Err(e), p) => (Err(e), p),
    }
}

/// What follows the first factor of a term.
#[verifier::opaque]
pub open spec fn p_term_rest(tokens: Seq<Token>, pos: int, node: ExprView) -> Parsed<ExprView>
    decreases tokens.len() - pos, 14int,
{
    match peek(tokens, pos) {
        Some(Token::Flag(flag)) => if flag == FlagType::Mul || flag == FlagType::Div {
            match p_factor(tokens, pos + 1) {
                (Ok(right), p) => p_term_rest(
                    tokens,
                    reached(tokens, p, pos + 1),
                    ExprView::BinOp(flag, Box::new(node), Box::new(right)),
                ),
                (Err(e), p) => (Err(e), p),
            }
        } else {
            (Ok(node), pos)
        },
        _ => (Ok(node), pos),
    }
}

/// logical_term: term {(Plus | Minus) term}
#[verifier::opaque]
pub open spec fn p_logical_term(tokens: Seq<Token>, pos: int) -> Parsed<ExprView>
    decreases tokens.len() - pos, 17int,
{
    match p_term(tokens, pos) {
        (Ok(node), p) => p_logical_rest(tokens, reached(tokens, p, pos), node),
        (Err(e), p) => (Err(e), p),
    }
}

/// What follows the first term of a sum.
#[verifier::opaque]
pub open spec fn p_logical_rest(tokens: Seq<Token>, pos: int, node: ExprView) -> Parsed<ExprView>
    decreases tokens.len() - pos, 16int,
{
    match peek(tokens, pos) {
        Some(Token::Flag(flag)) => if flag == FlagType::Plus || flag == FlagType::Minus {
            match p_term(tokens, pos + 1) {
                (Ok(right), p) => p_logical_rest(
                    tokens,
                    reached(tokens, p, pos + 1),
                    ExprView::BinOp(flag, Box::new(node), Box::new(right)),
                ),
                (Err(e), p) => (Err(e), p),
            }
        } else {
            (Ok(node), pos)
        },
        _ => (Ok(node), pos),
    }
}

/// equality: logical_term [(EQ | NEQ) logical_term]
#[verifier::opaque]
pub open spec fn p_equality(tokens: Seq<Token>, pos: int) -> Parsed<ExprView>
    decreases tokens.len() - pos, 18int,
{
    match p_logical_term(tokens, pos) {
        (Ok(node), p) => match peek(tokens, reached(tokens, p, pos)) {
            Some(Token::Flag(flag)) => if flag == FlagType::EQ || flag == FlagType::NEQ {
                match p_logical_term(tokens, reached(tokens, p, pos) + 1) {
                    (Ok(right), q) => (
                        Ok(ExprView::BinOp(flag, Box::new(node), Box::new(right))),
                        q,
                    ),
                    (Err(e), q) => (Err(e), q),
                }
            } else {
                (Ok(node), reached(tokens, p, pos))
            },
            _ => (Ok(node), reached(tokens, p, pos)),
        },
        (Err(e), p) => (Err(e), p),
    }
}

/// conj: equality {AND equality}
#[verifier::opaque]
pub open spec fn p_conj(tokens: Seq<Token>, pos: int) -> Parsed<ExprView>
    decreases tokens.len() - pos, 20int,
{
    match p_equality(tokens, pos) {
        (Ok(node), p) => p_conj_rest(tokens, reached(tokens, p, pos), node),
        (Err(e), p) => (Err(e), p),
    }
}

/// What follows the first operand of a conjunction.
#[verifier::opaque]
pub open spec fn p_conj_rest(tokens: Seq<Token>, pos: int, node: ExprView) -> Parsed<ExprView>
    decreases tokens.len() - pos, 19int,
{
    if next_is(tokens, pos, FlagType::AND) {
        match p_equality(tokens, pos + 1) {
            (Ok(right), p) => p_conj_rest(
                tokens,
                reached(tokens, p, pos + 1),
                ExprView::BinOp(FlagType::AND, Box::new(node), Box::new(right)),
            ),
            (Err(e), p) => (Err(e), p),
        }
    } else {
        (Ok(node), pos)
    }
}

/// disj: conj {OR conj}
#[verifier::opaque]
pub open spec fn p_disj(tokens: Seq<Token>, pos: int) -> Parsed<ExprView>
    decreases tokens.len() - pos, 22int,
{
    match p_conj(tokens, pos) {
        (Ok(node), p) => p_disj_rest(tokens, reached(tokens, p, pos), node),
        (Err(e), p) => (Err(e), p),
    }
}

/// What follows the first operand of a disjunction.
#[verifier::opaque]
pub open spec fn p_disj_rest(tokens: Seq<Token>, pos: int, node: ExprView) -> Parsed<ExprView>
    decreases tokens.len() - pos, 21int,
{
    if next_is(tokens, pos, FlagType::OR) {
        match p_conj(tokens, pos + 1) {
            (Ok(right), p) => p_disj_rest(
                tokens,
                reached(tokens, p, pos + 1),
                ExprView::BinOp(FlagType::OR, Box::new(node), Box::new(right)),
            ),
            (Err(e), p) => (Err(e), p),
        }
    } else {
        (Ok(node), pos)
    }
}

/// expr: function_def | disj
#[verifier::opaque]
pub open spec fn p_expr(tokens: Seq<Token>, pos: int) -> Parsed<ExprView>
    decreases tokens.len() - pos, 27int,
{
    if next_is(tokens, pos, FlagType::Function) {
        p_function_def(tokens, pos)
    } else {
        p_disj(tokens, pos)
    }
}

/// A prefix expression that goes on with `:` or `.` is not parsed; any other
/// stays as it is.
pub open spec fn p_prefixexp_expand(tokens: Seq<Token>, pos: int, prefix: (ExprView, PrefixExp))
    -> Parsed<(ExprView, PrefixExp)> {
    if next_is(tokens, pos, FlagType::Colons) || next_is(tokens, pos, FlagType::Dot) {
        (Err(ParserError::ParseFailed), pos)
    } else {
        (Ok(prefix), pos)
    }
}

/// prefixexp: Name [name_complement] | LParen expr RParen
#[verifier::opaque]
pub open spec fn p_prefixexp(tokens: Seq<Token>, pos: int) -> Parsed<(ExprView, PrefixExp)>
    decreases tokens.len() - pos, 12int,
{
    match peek(tokens, pos) {
        Some(Token::Flag(FlagType::LParen)) => match p_expr(tokens, pos + 1) {
            (Ok(node), p) => match p_eat(tokens, p, FlagType::RParen) {
                (Ok(_), q) => p_prefixexp_expand(tokens, q, (node, PrefixExp::Other)),
                (Err(e), q) => (Err(e), q),
            },
            (Err(e), p) => (Err(e), p),
        },
        Some(Token::Name(name)) => match p_name_complement(
            tokens,
            pos + 1,
            ExprView::Var(VarView::Name(name)),
        ) {
            (Ok(prefix), p) => p_prefixexp_expand(tokens, p, prefix),
            (Err(e), p) => (Err(e), p),
        },
        _ => (Err(ParserError::ParseFailed), pos),
    }
}

/// name_complement: LParen arglist RParen | nothing
///
/// With arguments the prefix is called; `:` and `.` are not parsed.
#[verifier::opaque]
pub open spec fn p_name_complement(tokens: Seq<Token>, pos: int, prefix: ExprView) -> Parsed<
    (ExprView, PrefixExp),
>
    decreases tokens.len() - pos, 11int,
{
    if next_is(tokens, pos, FlagType::LParen) {
        match p_arglist(tokens, pos + 1) {
            (Ok((args, is_vararg)), p) => match p_eat(tokens, p, FlagType::RParen) {
                (Ok(_), q) => (
                    Ok(
                        (
                            ExprView::FunctionCall(Box::new(prefix), args, is_vararg),
                            PrefixExp::FuncCall,
                        ),
                    ),
                    q,
                ),
                (Err(e), q) => (Err(e), q),
            },
            (Err(e), p) => (Err(e), p),
        }
    } else if next_is(tokens, pos, FlagType::Colons) || next_is(tokens, pos, FlagType::Dot) {
        (Err(ParserError::ParseFailed), pos)
    } else {
        (Ok((prefix, PrefixExp::Var)), pos)
    }
}

/// What an argument or parameter list starts with when its first item did
/// not parse: `...`, or nothing.
pub open spec fn p_dots(tokens: Seq<Token>, pos: int) -> (bool, int) {
    if next_is(tokens, pos, FlagType::ThreeDot) {
        (true, pos + 1)
    } else {
        (false, pos)
    }
}

/// arglist: [expr | ThreeDot] {Comma (expr | ThreeDot)}
#[verifier::opaque]
pub open spec fn p_arglist(tokens: Seq<Token>, pos: int) -> Parsed<(Seq<ExprView>, bool)>
    decreases tokens.len() - pos, 31int,
{
    match p_expr(tokens, pos) {
        (Ok(expr), p) => p_arglist_rest(tokens, reached(tokens, p, pos), seq![expr], false),
        (Err(_), p) => {
            let (dots, q) = p_dots(tokens, reached(tokens, p, pos));
            p_arglist_rest(tokens, q, Seq::empty(), dots)
        },
    }
}

/// What follows the first argument.
#[verifier::opaque]
pub open spec fn p_arglist_rest(
    tokens: Seq<Token>,
    pos: int,
    list: Seq<ExprView>,
    is_vararg: bool,
) -> Parsed<(Seq<ExprView>, bool)>
    decreases tokens.len() - pos, 30int,
{
    if next_is(tokens, pos, FlagType::Comma) {
        match p_expr(tokens, pos + 1) {
            (Ok(expr), p) => p_arglist_rest(
                tokens,
                reached(tokens, p, pos + 1),
                list.push(expr),
                is_vararg,
            ),
            (Err(_), p) => if next_is(tokens, reached(tokens, p, pos + 1), FlagType::ThreeDot) {
                p_arglist_rest(tokens, reached(tokens, p, pos + 1) + 1, list, true)
            } else {
                (Err(ParserError::SyntaxError), reached(tokens, p, pos + 1))
            },
        }
    } else {
        (Ok((list, is_vararg)), pos)
    }
}

/// parlist: [Name | ThreeDot] {Comma (Name | ThreeDot)}
pub open spec fn p_parlist(tokens: Seq<Token>, pos: int) -> Parsed<(Seq<Name>, bool)> {
    match p_name(tokens, pos) {
        (Ok(name), p) => p_parlist_rest(tokens, p, seq![name], false),
        (Err(_), p) => {
            let (dots, q) = p_dots(tokens, p);
            p_parlist_rest(tokens, q, Seq::empty(), dots)
        },
    }
}

/// What follows the first parameter.
#[verifier::opaque]
pub open spec fn p_parlist_rest(tokens: Seq<Token>, pos: int, list: Seq<Name>, is_vararg: bool)
    -> Parsed<(Seq<Name>, bool)>
    decreases tokens.len() - pos,
{
    if next_is(tokens, pos, FlagType::Comma) {
        match p_name(tokens, pos + 1) {
            (Ok(name), p) => p_parlist_rest(tokens, pos + 2, list.push(name), is_vararg),
            (Err(_), p) => if next_is(tokens, pos + 1, FlagType::ThreeDot) {
                p_parlist_rest(tokens, pos + 2, list, true)
            } else {
                (Err(ParserError::SyntaxError), pos + 1)
            },
        }
    } else {
        (Ok((list, is_vararg)), pos)
    }
}

/// function_def: Function function_body End
#[verifier::opaque]
pub open spec fn p_function_def(tokens: Seq<Token>, pos: int) -> Parsed<ExprView>
    decreases tokens.len() - pos, 26int,
{
    match p_eat(tokens, pos, FlagType::Function) {
        (Err(e), p) => (Err(e), p),
        (Ok(_), p) => match p_function_body(tokens, p) {
            (Err(e), q) => (Err(e), q),
            (Ok(((names, is_vararg), body)), q) => match p_eat(tokens, q, FlagType::End) {
                (Err(e), r) => (Err(e), r),
                (Ok(_), r) => (Ok(ExprView::FunctionDef(names, is_vararg, Box::new(body))), r),
            },
        },
    }
}

/// function_body: LParen [parlist] RParen block
///
/// A parameter list that does not parse counts as none.
#[verifier::opaque]
pub open spec fn p_function_body(tokens: Seq<Token>, pos: int) -> Parsed<
    ((Seq<Name>, bool), BlockView),
>
    decreases tokens.len() - pos, 25int,
{
    match p_eat(tokens, pos, FlagType::LParen) {
        (Err(e), p) => (Err(e), p),
        (Ok(_), p) => {
            let (parsed, q) = p_parlist(tokens, p);
            let params = match parsed {
                Ok(params) => params,
                Err(_) => (Seq::empty(), false),
            };
            match p_eat(tokens, reached(tokens, q, p), FlagType::RParen) {
                (Err(e), r) => (Err(e), r),
                (Ok(_), r) => match p_block(tokens, r) {
                    (Err(e), t) => (Err(e), t),
                    (Ok(body), t) => (Ok((params, body)), t),
                },
            }
        },
    }
}

/// exprlist: expr {Comma expr}
#[verifier::opaque]
pub open spec fn p_exprlist(tokens: Seq<Token>, pos: int) -> Parsed<Seq<ExprView>>
    decreases tokens.len() - pos, 29int,
{
    match p_expr(tokens, pos) {
        (Ok(expr), p) => p_exprlist_rest(tokens, reached(tokens, p, pos), seq![expr]),
        (Err(e), p) => (Err(e), p),
    }
}

/// What follows the first expression of a list.
#[verifier::opaque]
pub open spec fn p_exprlist_rest(tokens: Seq<Token>, pos: int, list: Seq<ExprView>) -> Parsed<
    Seq<ExprView>,
>
    decreases tokens.len() - pos, 28int,
{
    if next_is(tokens, pos, FlagType::Comma) {
        match p_expr(tokens, pos + 1) {
            (Ok(expr), p) => p_exprlist_rest(tokens, reached(tokens, p, pos + 1), list.push(expr)),
            (Err(e), p) => (Err(e), p),
        }
    } else {
        (Ok(list), pos)
    }
}

/// namelist: Name {Comma Name}
pub open spec fn p_namelist(tokens: Seq<Token>, pos: int) -> Parsed<Seq<Name>> {
    match p_name(tokens, pos) {
        (Ok(name), p) => p_namelist_rest(tokens, p, seq![name]),
        (Err(e), p) => (Err(e), p),
    }
}

/// What follows the first name of a list.
#[verifier::opaque]
pub open spec fn p_namelist_rest(tokens: Seq<Token>, pos: int, list: Seq<Name>) -> Parsed<Seq<Name>>
    decreases tokens.len() - pos,
{
    if next_is(tokens, pos, FlagType::Comma) {
        match p_name(tokens, pos + 1) {
            (Ok(name), p) => p_namelist_rest(tokens, pos + 2, list.push(name)),
            (Err(e), p) => (Err(e), p),
        }
    } else {
        (Ok(list), pos)
    }
}

/// var: Name
///
/// Any other variable is not parsed.
pub open spec fn p_var(tokens: Seq<Token>, pos: int) -> Parsed<VarView> {
    match peek(tokens, pos) {
        Some(Token::Name(id)) => (Ok(VarView::Name(id)), pos + 1),
        _ => (Err(ParserError::ParseFailed), pos),
    }
}

/// varlist: var {Comma var}
pub open spec fn p_varlist(tokens: Seq<Token>, pos: int) -> Parsed<Seq<VarView>> {
    match p_var(tokens, pos) {
        (Ok(var), p) => p_varlist_rest(tokens, p, seq![var]),
        (Err(e), p) => (Err(e), p),
    }
}

/// What follows the first variable of a list.
#[verifier::opaque]
pub open spec fn p_varlist_rest(tokens: Seq<Token>, pos: int, list: Seq<VarView>) -> Parsed<
    Seq<VarView>,
>
    decreases tokens.len() - pos,
{
    if next_is(tokens, pos, FlagType::Comma) {
        match p_var(tokens, pos + 1) {
            (Ok(var), p) => p_varlist_rest(tokens, pos + 2, list.push(var)),
            (Err(e), p) => (Err(e), p),
        }
    } else {
        (Ok(list), pos)
    }
}

/// assign: varlist Assign exprlist
#[verifier::opaque]
pub open spec fn p_assign(tokens: Seq<Token>, pos: int) -> Parsed<StatView>
    decreases tokens.len() - pos, 36int,
{
    match p_varlist(tokens, pos) {
        (Err(e), p) => (Err(e), p),
        (Ok(vars), p) => match p_eat(tokens, reached(tokens, p, pos), FlagType::Assign) {
            (Err(_), q) => (Err(ParserError::ExpectationUnmeet), q),
            (Ok(_), q) => match p_exprlist(tokens, q) {
                (Err(e), r) => (Err(e), r),
                (Ok(exprs), r) => (Ok(StatView::Assign(vars, exprs)), r),
            },
        },
    }
}

/// assign_local: Local namelist Assign exprlist
#[verifier::opaque]
pub open spec fn p_assign_local(tokens: Seq<Token>, pos: int) -> Parsed<StatView>
    decreases tokens.len() - pos, 36int,
{
    match p_eat(tokens, pos, FlagType::Local) {
        (Err(e), p) => (Err(e), p),
        (Ok(_), p) => match p_namelist(tokens, p) {
            (Err(e), q) => (Err(e), q),
            (Ok(names), q) => match p_eat(tokens, reached(tokens, q, p), FlagType::Assign) {
                (Err(_), r) => (Err(ParserError::SyntaxError), r),
                (Ok(_), r) => match p_exprlist(tokens, r) {
                    (Err(e), t) => (Err(e), t),
                    (Ok(exprs), t) => (Ok(StatView::AssignLocal(names, exprs)), t),
                },
            },
        },
    }
}

/// retstat: Return [exprlist] [Colons]
///
/// A list that does not parse counts as none, and the tokens it took stay
/// taken.
#[verifier::opaque]
pub open spec fn p_retstat(tokens: Seq<Token>, pos: int) -> Parsed<Seq<ExprView>>
    decreases tokens.len() - pos, 36int,
{
    match p_eat(tokens, pos, FlagType::Return) {
        (Err(e), p) => (Err(e), p),
        (Ok(_), p) => {
            let (parsed, q) = p_exprlist(tokens, p);
            let list = match parsed {
                Ok(list) => list,
                Err(_) => Seq::empty(),
            };
            (Ok(list), p_eat(tokens, reached(tokens, q, p), FlagType::Colons).1)
        },
    }
}

/// What comes behind a rule that must be followed by a token of the kind
/// `flag`, on pain of a syntax error.
pub open spec fn p_expect(tokens: Seq<Token>, pos: int, flag: FlagType) -> Parsed<()> {
    match p_eat(tokens, pos, flag) {
        (Ok(_), p) => (Ok(()), p),
        (Err(_), p) => (Err(ParserError::SyntaxError), p),
    }
}

/// if_else: If expr Then block {Elseif expr Then block} [Else block] End
#[verifier::opaque]
pub open spec fn p_if_else_clause(tokens: Seq<Token>, pos: int) -> Parsed<StatView>
    decreases tokens.len() - pos, 36int,
{
    match p_eat(tokens, pos, FlagType::If) {
        (Err(e), p) => (Err(e), p),
        (Ok(_), p) => match p_expr(tokens, p) {
            (Err(e), q) => (Err(e), q),
            (Ok(cond), q) => match p_eat(tokens, reached(tokens, q, p), FlagType::Then) {
                (Err(e), r) => (Err(e), r),
                (Ok(_), r) => match p_block(tokens, r) {
                    (Err(e), t) => (Err(e), t),
                    (Ok(then), t) => match p_else_chain(tokens, reached(tokens, t, r)) {
                        (Err(e), u) => (Err(e), u),
                        (Ok(otherwise), u) => match p_expect(tokens, u, FlagType::End) {
                            (Err(e), v) => (Err(e), v),
                            (Ok(_), v) => (
                                Ok(
                                    StatView::IfElse(
                                        Box::new(cond),
                                        Box::new(then),
                                        match otherwise {
                                            Some(block) => Some(Box::new(block)),
                                            None => None,
                                        },
                                    ),
                                ),
                                v,
                            ),
                        },
                    },
                },
            },
        },
    }
}

/// The branches behind the first: each `elseif` is an `if` that is the only
/// statement of the branch before it.
#[verifier::opaque]
pub open spec fn p_else_chain(tokens: Seq<Token>, pos: int) -> Parsed<Option<BlockView>>
    decreases tokens.len() - pos, 35int,
{
    if next_is(tokens, pos, FlagType::Elseif) {
        match p_expr(tokens, pos + 1) {
            (Err(e), q) => (Err(e), q),
            (Ok(cond), q) => match p_expect(tokens, reached(tokens, q, pos + 1), FlagType::Then) {
                (Err(e), r) => (Err(e), r),
                (Ok(_), r) => match p_block(tokens, r) {
                    (Err(e), t) => (Err(e), t),
                    (Ok(then), t) => match p_else_chain(tokens, reached(tokens, t, r)) {
                        (Err(e), u) => (Err(e), u),
                        (Ok(otherwise), u) => (
                            Ok(
                                Some(
                                    BlockView {
                                        stats: seq![
                                            StatView::IfElse(
                                                Box::new(cond),
                                                Box::new(then),
                                                match otherwise {
                                                    Some(block) => Some(Box::new(block)),
                                                    None => None,
                                                },
                                            ),
                                        ],
                                        ret: None,
                                    },
                                ),
                            ),
                            u,
                        ),
                    },
                },
            },
        }
    } else if next_is(tokens, pos, FlagType::Else) {
        match p_block(tokens, pos + 1) {
            (Err(e), q) => (Err(e), q),
            (Ok(block), q) => (Ok(Some(block)), q),
        }
    } else {
        (Ok(None), pos)
    }
}

/// while_do: While expr Do block End
#[verifier::opaque]
pub open spec fn p_while_do(tokens: Seq<Token>, pos: int) -> Parsed<StatView>
    decreases tokens.len() - pos, 36int,
{
    match p_eat(tokens, pos, FlagType::While) {
        (Err(e), p) => (Err(e), p),
        (Ok(_), p) => match p_expr(tokens, p) {
            (Err(e), q) => (Err(e), q),
            (Ok(cond), q) => match p_expect(tokens, reached(tokens, q, p), FlagType::Do) {
                (Err(e), r) => (Err(e), r),
                (Ok(_), r) => match p_block(tokens, r) {
                    (Err(e), t) => (Err(e), t),
                    (Ok(body), t) => match p_expect(tokens, t, FlagType::End) {
                        (Err(e), u) => (Err(e), u),
                        (Ok(_), u) => (
                            Ok(StatView::While(Box::new(cond), Box::new(body))),
                            u,
                        ),
                    },
                },
            },
        },
    }
}

/// ranged_for: For namelist In exprlist Do block
#[verifier::opaque]
pub open spec fn p_ranged_for(tokens: Seq<Token>, pos: int) -> Parsed<StatView>
    decreases tokens.len() - pos, 36int,
{
    match p_eat(tokens, pos, FlagType::For) {
        (Err(e), p) => (Err(e), p),
        (Ok(_), p) => match p_namelist(tokens, p) {
            (Err(e), q) => (Err(e), q),
            (Ok(names), q) => match p_expect(tokens, reached(tokens, q, p), FlagType::In) {
                (Err(e), r) => (Err(e), r),
                (Ok(_), r) => match p_exprlist(tokens, r) {
                    (Err(e), t) => (Err(e), t),
                    (Ok(exprs), t) => match p_expect(tokens, reached(tokens, t, r), FlagType::Do) {
                        (Err(e), u) => (Err(e), u),
                        (Ok(_), u) => match p_block(tokens, u) {
                            (Err(e), v) => (Err(e), v),
                            (Ok(body), v) => (
                                Ok(StatView::ForRange(names, exprs, Box::new(body))),
                                v,
                            ),
                        },
                    },
                },
            },
        },
    }
}

/// stat: {Colons} (assign_local | assign | if_else | while_do | ranged_for | Break)
///
/// A statement is expected but not met where a block ends: at `return`,
/// `end`, `elseif`, `else` and the end of the text. A name that does not
/// start an assignment, and any other token, is not parsed.
#[verifier::opaque]
pub open spec fn p_stat(tokens: Seq<Token>, pos: int) -> Parsed<StatView>
    decreases tokens.len() - pos, 37int,
{
    match peek(tokens, pos) {
        None => (Err(ParserError::SyntaxError), pos),
        Some(Token::Name(_)) => match p_assign(tokens, pos) {
            (Err(ParserError::ExpectationUnmeet), p) => (Err(ParserError::ParseFailed), p),
            parsed => parsed,
        },
        Some(Token::Flag(flag)) => match flag {
            FlagType::Colons => p_stat(tokens, pos + 1),
            FlagType::Local => p_assign_local(tokens, pos),
            FlagType::If => p_if_else_clause(tokens, pos),
            FlagType::While => p_while_do(tokens, pos),
            FlagType::For => p_ranged_for(tokens, pos),
            FlagType::Break => (Ok(StatView::Break), pos + 1),
            FlagType::Return | FlagType::End | FlagType::Elseif | FlagType::Else
            | FlagType::EOF => (Err(ParserError::ExpectationUnmeet), pos),
            _ => (Err(ParserError::ParseFailed), pos),
        },
        Some(_) => (Err(ParserError::ParseFailed), pos),
    }
}

/// block: {stat} [retstat]
#[verifier::opaque]
pub open spec fn p_block(tokens: Seq<Token>, pos: int) -> Parsed<BlockView>
    decreases tokens.len() - pos, 39int,
{
    p_block_rest(tokens, pos, Seq::empty())
}

/// What follows the statements of a block that have been parsed. The
/// statements end where one is expected but not met; any other error is the
/// error of the block.
#[verifier::opaque]
pub open spec fn p_block_rest(tokens: Seq<Token>, pos: int, stats: Seq<StatView>) -> Parsed<
    BlockView,
>
    decreases tokens.len() - pos, 38int,
{
    match p_stat(tokens, pos) {
        (Ok(stat), p) => if pos < p <= tokens.len() {
            p_block_rest(tokens, p, stats.push(stat))
        } else {
            (Err(ParserError::ParseFailed), pos)
        },
        (Err(ParserError::ExpectationUnmeet), p) => match p_retstat(tokens, reached(tokens, p, pos)) {
            (Ok(ret), q) => (Ok(BlockView { stats, ret: Some(ret) }), q),
            (Err(_), q) => (Ok(BlockView { stats, ret: None }), q),
        },
        (Err(e), p) => (Err(e), p),
    }
}

/// program: block
pub open spec fn p_program(tokens: Seq<Token>) -> Result<NodeView, ParserError> {
    match p_block(tokens, 0) {
        (Ok(block), _) => Ok(NodeView::Block(block)),
        (Err(e), _) => Err(e),
    }
}

} // verus!
