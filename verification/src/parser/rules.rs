//! The rules of the grammar, one for each recursive function of the model:
//! what the function gives, written out by one step. The functions of the
//! model are opaque, and a proof takes the steps it needs from here.

use crate::parser::model::{
    next_is, p_arglist, p_arglist_rest, p_assign, p_assign_local, p_block, p_block_rest, p_conj,
    p_conj_rest, p_disj, p_disj_rest, p_dots, p_eat, p_else_chain, p_equality, p_expect, p_expr,
    p_exprlist, p_exprlist_rest, p_factor, p_function_body, p_function_def, p_if_else_clause,
    p_logical_rest, p_logical_term, p_name, p_name_complement, p_namelist, p_namelist_rest,
    p_parlist, p_parlist_rest, p_prefixexp, p_prefixexp_expand, p_ranged_for, p_retstat, p_stat,
    p_term, p_term_rest, p_var, p_varlist, p_varlist_rest, p_while_do, peek, reached,
};
use crate::parser::types::{BlockView, ExprView, Name, ParserError, PrefixExp, StatView, VarView};
use crate::tokens::{FlagType, Token};
use vstd::prelude::*;

verus! {

/// One step of [`p_factor`].
pub proof fn rule_factor(tokens: Seq<Token>, pos: int)
    ensures
        p_factor(tokens, pos) == ({
            match peek(tokens, pos) {
                Some(Token::Num(n)) => (Ok(ExprView::Num(n)), pos + 1),
                Some(Token::Str(s)) => (Ok(ExprView::Str(s)), pos + 1),
                Some(Token::Name(_)) => match p_prefixexp(tokens, pos) {
                    (Ok((node, _)), p) => (Ok(node), p),
                    (Err(e), p) => (Err(e), p),
                },
                Some(Token::Flag(flag)) => if flag == FlagType::Plus || flag == FlagType::Minus {
                    match p_factor(tokens, pos + 1) {
                        (Ok(node), p) => (Ok(ExprView::UnaryOp(flag, Box::new(node))), p),
                        (Err(e), p) => (Err(e), p),
                    }
                } else if flag == FlagType::LParen {
                    match p_prefixexp(tokens, pos) {
                        (Ok((node, _)), p) => (Ok(node), p),
                        (Err(e), p) => (Err(e), p),
                    }
                } else if flag == FlagType::True {
                    (Ok(ExprView::Boole(true)), pos + 1)
                } else if flag == FlagType::False {
                    (Ok(ExprView::Boole(false)), pos + 1)
                } else {
                    (Err(ParserError::SyntaxError), pos)
                },
                None => (Err(ParserError::SyntaxError), pos),
            }
        }),
{
    reveal(p_factor);
    reveal(p_prefixexp);
}

/// One step of [`p_term`].
pub proof fn rule_term(tokens: Seq<Token>, pos: int)
    ensures
        p_term(tokens, pos) == ({
            match p_factor(tokens, pos) {
                (Ok(node), p) => p_term_rest(tokens, reached(tokens, p, pos), node),
                (Err(e), p) => (Err(e), p),
            }
        }),
{
    reveal(p_factor);
    reveal(p_term);
    reveal(p_term_rest);
}

/// One step of [`p_term_rest`].
pub proof fn rule_term_rest(tokens: Seq<Token>, pos: int, node: ExprView)
    ensures
        p_term_rest(tokens, pos, node) == ({
            match peek(tokens, pos) {
                Some(Token::Flag(flag)) => if flag == FlagType::Mul || flag == FlagType::Div {
                    match p_factor(tokens, pos + 1) {
                        (Ok(right), p) => p_term_rest(
                            tokens,
                            reached(tokens, p, pos + 1),
                            ExprView::BinOp(flag, Box::new(node), Box::new(right)),
                        ),
                        (Err(e), p) => (Err(e), p),
                    }
                } else {
                    (Ok(node), pos)
                },
                _ => (Ok(node), pos),
            }
        }),
{
    reveal(p_factor);
    reveal(p_term_rest);
}

/// One step of [`p_logical_term`].
pub proof fn rule_logical_term(tokens: Seq<Token>, pos: int)
    ensures
        p_logical_term(tokens, pos) == ({
            match p_term(tokens, pos) {
                (Ok(node), p) => p_logical_rest(tokens, reached(tokens, p, pos), node),
                (Err(e), p) => (Err(e), p),
            }
        }),
{
    reveal(p_logical_rest);
    reveal(p_logical_term);
    reveal(p_term);
}

/// One step of [`p_logical_rest`].
pub proof fn rule_logical_rest(tokens: Seq<Token>, pos: int, node: ExprView)
    ensures
        p_logical_rest(tokens, pos, node) == ({
            match peek(tokens, pos) {
                Some(Token::Flag(flag)) => if flag == FlagType::Plus || flag == FlagType::Minus {
                    match p_term(tokens, pos + 1) {
                        (Ok(right), p) => p_logical_rest(
                            tokens,
                            reached(tokens, p, pos + 1),
                            ExprView::BinOp(flag, Box::new(node), Box::new(right)),
                        ),
                        (Err(e), p) => (Err(e), p),
                    }
                } else {
                    (Ok(node), pos)
                },
                _ => (Ok(node), pos),
            }
        }),
{
    reveal(p_logical_rest);
    reveal(p_term);
}

/// One step of [`p_equality`].
pub proof fn rule_equality(tokens: Seq<Token>, pos: int)
    ensures
        p_equality(tokens, pos) == ({
            match p_logical_term(tokens, pos) {
                (Ok(node), p) => match peek(tokens, reached(tokens, p, pos)) {
                    Some(Token::Flag(flag)) => if flag == FlagType::EQ || flag == FlagType::NEQ {
                        match p_logical_term(tokens, reached(tokens, p, pos) + 1) {
                            (Ok(right), q) => (
                                Ok(ExprView::BinOp(flag, Box::new(node), Box::new(right))),
                                q,
                            ),
                            (Err(e), q) => (Err(e), q),
                        }
                    } else {
                        (Ok(node), reached(tokens, p, pos))
                    },
                    _ => (Ok(node), reached(tokens, p, pos)),
                },
                (Err(e), p) => (Err(e), p),
            }
        }),
{
    reveal(p_equality);
    reveal(p_logical_term);
}

/// One step of [`p_conj`].
pub proof fn rule_conj(tokens: Seq<Token>, pos: int)
    ensures
        p_conj(tokens, pos) == ({
            match p_equality(tokens, pos) {
                (Ok(node), p) => p_conj_rest(tokens, reached(tokens, p, pos), node),
                (Err(e), p) => (Err(e), p),
            }
        }),
{
    reveal(p_conj);
    reveal(p_conj_rest);
    reveal(p_equality);
}

/// One step of [`p_conj_rest`].
pub proof fn rule_conj_rest(tokens: Seq<Token>, pos: int, node: ExprView)
    ensures
        p_conj_rest(tokens, pos, node) == ({
            if next_is(tokens, pos, FlagType::AND) {
                match p_equality(tokens, pos + 1) {
                    (Ok(right), p) => p_conj_rest(
                        tokens,
                        reached(tokens, p, pos + 1),
                        ExprView::BinOp(FlagType::AND, Box::new(node), Box::new(right)),
                    ),
                    (Err(e), p) => (Err(e), p),
                }
            } else {
                (Ok(node), pos)
            }
        }),
{
    reveal(p_conj_rest);
    reveal(p_equality);
}

/// One step of [`p_disj`].
pub proof fn rule_disj(tokens: Seq<Token>, pos: int)
    ensures
        p_disj(tokens, pos) == ({
            match p_conj(tokens, pos) {
                (Ok(node), p) => p_disj_rest(tokens, reached(tokens, p, pos), node),
                (Err(e), p) => (Err(e), p),
            }
        }),
{
    reveal(p_conj);
    reveal(p_disj);
    reveal(p_disj_rest);
}

/// One step of [`p_disj_rest`].
pub proof fn rule_disj_rest(tokens: Seq<Token>, pos: int, node: ExprView)
    ensures
        p_disj_rest(tokens, pos, node) == ({
            if next_is(tokens, pos, FlagType::OR) {
                match p_conj(tokens, pos + 1) {
                    (Ok(right), p) => p_disj_rest(
                        tokens,
                        reached(tokens, p, pos + 1),
                        ExprView::BinOp(FlagType::OR, Box::new(node), Box::new(right)),
                    ),
                    (Err(e), p) => (Err(e), p),
                }
            } else {
                (Ok(node), pos)
            }
        }),
{
    reveal(p_conj);
    reveal(p_disj_rest);
}

/// One step of [`p_expr`].
pub proof fn rule_expr(tokens: Seq<Token>, pos: int)
    ensures
        p_expr(tokens, pos) == ({
            if next_is(tokens, pos, FlagType::Function) {
                p_function_def(tokens, pos)
            } else {
                p_disj(tokens, pos)
            }
        }),
{
    reveal(p_disj);
    reveal(p_expr);
    reveal(p_function_def);
}

/// One step of [`p_prefixexp`].
pub proof fn rule_prefixexp(tokens: Seq<Token>, pos: int)
    ensures
        p_prefixexp(tokens, pos) == ({
            match peek(tokens, pos) {
                Some(Token::Flag(FlagType::LParen)) => match p_expr(tokens, pos + 1) {
                    (Ok(node), p) => match p_eat(tokens, p, FlagType::RParen) {
                        (Ok(_), q) => p_prefixexp_expand(tokens, q, (node, PrefixExp::Other)),
                        (Err(e), q) => (Err(e), q),
                    },
                    (Err(e), p) => (Err(e), p),
                },
                Some(Token::Name(name)) => match p_name_complement(
                    tokens,
                    pos + 1,
                    ExprView::Var(VarView::Name(name)),
                ) {
                    (Ok(prefix), p) => p_prefixexp_expand(tokens, p, prefix),
                    (Err(e), p) => (Err(e), p),
                },
                _ => (Err(ParserError::ParseFailed), pos),
            }
        }),
{
    reveal(p_expr);
    reveal(p_name_complement);
    reveal(p_prefixexp);
}

/// One step of [`p_name_complement`].
pub proof fn rule_name_complement(tokens: Seq<Token>, pos: int, prefix: ExprView)
    ensures
        p_name_complement(tokens, pos, prefix) == ({
            if next_is(tokens, pos, FlagType::LParen) {
                match p_arglist(tokens, pos + 1) {
                    (Ok((args, is_vararg)), p) => match p_eat(tokens, p, FlagType::RParen) {
                        (Ok(_), q) => (
                            Ok(
                                (
                                    ExprView::FunctionCall(Box::new(prefix), args, is_vararg),
                                    PrefixExp::FuncCall,
                                ),
                            ),
                            q,
                        ),
                        (Err(e), q) => (Err(e), q),
                    },
                    (Err(e), p) => (Err(e), p),
                }
            } else if next_is(tokens, pos, FlagType::Colons) || next_is(tokens, pos, FlagType::Dot) {
                (Err(ParserError::ParseFailed), pos)
            } else {
                (Ok((prefix, PrefixExp::Var)), pos)
            }
        }),
{
    reveal(p_arglist);
    reveal(p_name_complement);
}

/// One step of [`p_arglist`].
pub proof fn rule_arglist(tokens: Seq<Token>, pos: int)
    ensures
        p_arglist(tokens, pos) == ({
            match p_expr(tokens, pos) {
                (Ok(expr), p) => p_arglist_rest(tokens, reached(tokens, p, pos), seq![expr], false),
                (Err(_), p) => {
                    let (dots, q) = p_dots(tokens, reached(tokens, p, pos));
                    p_arglist_rest(tokens, q, Seq::empty(), dots)
                },
            }
        }),
{
    reveal(p_arglist);
    reveal(p_arglist_rest);
    reveal(p_expr);
}

/// One step of [`p_arglist_rest`].
pub proof fn rule_arglist_rest(tokens: Seq<Token>, pos: int, list: Seq<ExprView>, is_vararg: bool)
    ensures
        p_arglist_rest(tokens, pos, list, is_vararg) == ({
            if next_is(tokens, pos, FlagType::Comma) {
                match p_expr(tokens, pos + 1) {
                    (Ok(expr), p) => p_arglist_rest(
                        tokens,
                        reached(tokens, p, pos + 1),
                        list.push(expr),
                        is_vararg,
                    ),
                    (Err(_), p) => if next_is(tokens, reached(tokens, p, pos + 1), FlagType::ThreeDot) {
                        p_arglist_rest(tokens, reached(tokens, p, pos + 1) + 1, list, true)
                    } else {
                        (Err(ParserError::SyntaxError), reached(tokens, p, pos + 1))
                    },
                }
            } else {
                (Ok((list, is_vararg)), pos)
            }
        }),
{
    reveal(p_arglist_rest);
    reveal(p_expr);
}

/// One step of [`p_parlist_rest`].
pub proof fn rule_parlist_rest(tokens: Seq<Token>, pos: int, list: Seq<Name>, is_vararg: bool)
    ensures
        p_parlist_rest(tokens, pos, list, is_vararg) == ({
            if next_is(tokens, pos, FlagType::Comma) {
                match p_name(tokens, pos + 1) {
                    (Ok(name), p) => p_parlist_rest(tokens, pos + 2, list.push(name), is_vararg),
                    (Err(_), p) => if next_is(tokens, pos + 1, FlagType::ThreeDot) {
                        p_parlist_rest(tokens, pos + 2, list, true)
                    } else {
                        (Err(ParserError::SyntaxError), pos + 1)
                    },
                }
            } else {
                (Ok((list, is_vararg)), pos)
            }
        }),
{
    reveal(p_parlist_rest);
}

/// One step of [`p_function_def`].
pub proof fn rule_function_def(tokens: Seq<Token>, pos: int)
    ensures
        p_function_def(tokens, pos) == ({
            match p_eat(tokens, pos, FlagType::Function) {
                (Err(e), p) => (Err(e), p),
                (Ok(_), p) => match p_function_body(tokens, p) {
                    (Err(e), q) => (Err(e), q),
                    (Ok(((names, is_vararg), body)), q) => match p_eat(tokens, q, FlagType::End) {
                        (Err(e), r) => (Err(e), r),
                        (Ok(_), r) => (Ok(ExprView::FunctionDef(names, is_vararg, Box::new(body))), r),
                    },
                },
            }
        }),
{
    reveal(p_function_body);
    reveal(p_function_def);
}

/// One step of [`p_function_body`].
pub proof fn rule_function_body(tokens: Seq<Token>, pos: int)
    ensures
        p_function_body(tokens, pos) == ({
            match p_eat(tokens, pos, FlagType::LParen) {
                (Err(e), p) => (Err(e), p),
                (Ok(_), p) => {
                    let (parsed, q) = p_parlist(tokens, p);
                    let params = match parsed {
                        Ok(params) => params,
                        Err(_) => (Seq::empty(), false),
                    };
                    match p_eat(tokens, reached(tokens, q, p), FlagType::RParen) {
                        (Err(e), r) => (Err(e), r),
                        (Ok(_), r) => match p_block(tokens, r) {
                            (Err(e), t) => (Err(e), t),
                            (Ok(body), t) => (Ok((params, body)), t),
                        },
                    }
                },
            }
        }),
{
    reveal(p_block);
    reveal(p_function_body);
}

/// One step of [`p_exprlist`].
pub proof fn rule_exprlist(tokens: Seq<Token>, pos: int)
    ensures
        p_exprlist(tokens, pos) == ({
            match p_expr(tokens, pos) {
                (Ok(expr), p) => p_exprlist_rest(tokens, reached(tokens, p, pos), seq![expr]),
                (Err(e), p) => (Err(e), p),
            }
        }),
{
    reveal(p_expr);
    reveal(p_exprlist);
    reveal(p_exprlist_rest);
}

/// One step of [`p_exprlist_rest`].
pub proof fn rule_exprlist_rest(tokens: Seq<Token>, pos: int, list: Seq<ExprView>)
    ensures
        p_exprlist_rest(tokens, pos, list) == ({
            if next_is(tokens, pos, FlagType::Comma) {
                match p_expr(tokens, pos + 1) {
                    (Ok(expr), p) => p_exprlist_rest(tokens, reached(tokens, p, pos + 1), list.push(expr)),
                    (Err(e), p) => (Err(e), p),
                }
            } else {
                (Ok(list), pos)
            }
        }),
{
    reveal(p_expr);
    reveal(p_exprlist_rest);
}

/// One step of [`p_namelist_rest`].
pub proof fn rule_namelist_rest(tokens: Seq<Token>, pos: int, list: Seq<Name>)
    ensures
        p_namelist_rest(tokens, pos, list) == ({
            if next_is(tokens, pos, FlagType::Comma) {
                match p_name(tokens, pos + 1) {
                    (Ok(name), p) => p_namelist_rest(tokens, pos + 2, list.push(name)),
                    (Err(e), p) => (Err(e), p),
                }
            } else {
                (Ok(list), pos)
            }
        }),
{
    reveal(p_namelist_rest);
}

/// One step of [`p_varlist_rest`].
pub proof fn rule_varlist_rest(tokens: Seq<Token>, pos: int, list: Seq<VarView>)
    ensures
        p_varlist_rest(tokens, pos, list) == ({
            if next_is(tokens, pos, FlagType::Comma) {
                match p_var(tokens, pos + 1) {
                    (Ok(var), p) => p_varlist_rest(tokens, pos + 2, list.push(var)),
                    (Err(e), p) => (Err(e), p),
                }
            } else {
                (Ok(list), pos)
            }
        }),
{
    reveal(p_varlist_rest);
}

/// One step of [`p_assign`].
pub proof fn rule_assign(tokens: Seq<Token>, pos: int)
    ensures
        p_assign(tokens, pos) == ({
            match p_varlist(tokens, pos) {
                (Err(e), p) => (Err(e), p),
                (Ok(vars), p) => match p_eat(tokens, reached(tokens, p, pos), FlagType::Assign) {
                    (Err(_), q) => (Err(ParserError::ExpectationUnmeet), q),
                    (Ok(_), q) => match p_exprlist(tokens, q) {
                        (Err(e), r) => (Err(e), r),
                        (Ok(exprs), r) => (Ok(StatView::Assign(vars, exprs)), r),
                    },
                },
            }
        }),
{
    reveal(p_assign);
    reveal(p_exprlist);
}

/// One step of [`p_assign_local`].
pub proof fn rule_assign_local(tokens: Seq<Token>, pos: int)
    ensures
        p_assign_local(tokens, pos) == ({
            match p_eat(tokens, pos, FlagType::Local) {
                (Err(e), p) => (Err(e), p),
                (Ok(_), p) => match p_namelist(tokens, p) {
                    (Err(e), q) => (Err(e), q),
                    (Ok(names), q) => match p_eat(tokens, reached(tokens, q, p), FlagType::Assign) {
                        (Err(_), r) => (Err(ParserError::SyntaxError), r),
                        (Ok(_), r) => match p_exprlist(tokens, r) {
                            (Err(e), t) => (Err(e), t),
                            (Ok(exprs), t) => (Ok(StatView::AssignLocal(names, exprs)), t),
                        },
                    },
                },
            }
        }),
{
    reveal(p_assign_local);
    reveal(p_exprlist);
}

/// One step of [`p_retstat`].
pub proof fn rule_retstat(tokens: Seq<Token>, pos: int)
    ensures
        p_retstat(tokens, pos) == ({
            match p_eat(tokens, pos, FlagType::Return) {
                (Err(e), p) => (Err(e), p),
                (Ok(_), p) => {
                    let (parsed, q) = p_exprlist(tokens, p);
                    let list = match parsed {
                        Ok(list) => list,
                        Err(_) => Seq::empty(),
                    };
                    (Ok(list), p_eat(tokens, reached(tokens, q, p), FlagType::Colons).1)
                },
            }
        }),
{
    reveal(p_exprlist);
    reveal(p_retstat);
}

/// One step of [`p_if_else_clause`].
pub proof fn rule_if_else_clause(tokens: Seq<Token>, pos: int)
    ensures
        p_if_else_clause(tokens, pos) == ({
            match p_eat(tokens, pos, FlagType::If) {
                (Err(e), p) => (Err(e), p),
                (Ok(_), p) => match p_expr(tokens, p) {
                    (Err(e), q) => (Err(e), q),
                    (Ok(cond), q) => match p_eat(tokens, reached(tokens, q, p), FlagType::Then) {
                        (Err(e), r) => (Err(e), r),
                        (Ok(_), r) => match p_block(tokens, r) {
                            (Err(e), t) => (Err(e), t),
                            (Ok(then), t) => match p_else_chain(tokens, reached(tokens, t, r)) {
                                (Err(e), u) => (Err(e), u),
                                (Ok(otherwise), u) => match p_expect(tokens, u, FlagType::End) {
                                    (Err(e), v) => (Err(e), v),
                                    (Ok(_), v) => (
                                        Ok(
                                            StatView::IfElse(
                                                Box::new(cond),
                                                Box::new(then),
                                                match otherwise {
                                                    Some(block) => Some(Box::new(block)),
                                                    None => None,
                                                },
                                            ),
                                        ),
                                        v,
                                    ),
                                },
                            },
                        },
                    },
                },
            }
        }),
{
    reveal(p_block);
    reveal(p_else_chain);
    reveal(p_expr);
    reveal(p_if_else_clause);
}

/// One step of [`p_else_chain`].
pub proof fn rule_else_chain(tokens: Seq<Token>, pos: int)
    ensures
        p_else_chain(tokens, pos) == ({
            if next_is(tokens, pos, FlagType::Elseif) {
                match p_expr(tokens, pos + 1) {
                    (Err(e), q) => (Err(e), q),
                    (Ok(cond), q) => match p_expect(tokens, reached(tokens, q, pos + 1), FlagType::Then) {
                        (Err(e), r) => (Err(e), r),
                        (Ok(_), r) => match p_block(tokens, r) {
                            (Err(e), t) => (Err(e), t),
                            (Ok(then), t) => match p_else_chain(tokens, reached(tokens, t, r)) {
                                (Err(e), u) => (Err(e), u),
                                (Ok(otherwise), u) => (
                                    Ok(
                                        Some(
                                            BlockView {
                                                stats: seq![
                                                    StatView::IfElse(
                                                        Box::new(cond),
                                                        Box::new(then),
                                                        match otherwise {
                                                            Some(block) => Some(Box::new(block)),
                                                            None => None,
                                                        },
                                                    ),
                                                ],
                                                ret: None,
                                            },
                                        ),
                                    ),
                                    u,
                                ),
                            },
                        },
                    },
                }
            } else if next_is(tokens, pos, FlagType::Else) {
                match p_block(tokens, pos + 1) {
                    (Err(e), q) => (Err(e), q),
                    (Ok(block), q) => (Ok(Some(block)), q),
                }
            } else {
                (Ok(None), pos)
            }
        }),
{
    reveal(p_block);
    reveal(p_else_chain);
    reveal(p_expr);
}

/// One step of [`p_while_do`].
pub proof fn rule_while_do(tokens: Seq<Token>, pos: int)
    ensures
        p_while_do(tokens, pos) == ({
            match p_eat(tokens, pos, FlagType::While) {
                (Err(e), p) => (Err(e), p),
                (Ok(_), p) => match p_expr(tokens, p) {
                    (Err(e), q) => (Err(e), q),
                    (Ok(cond), q) => match p_expect(tokens, reached(tokens, q, p), FlagType::Do) {
                        (Err(e), r) => (Err(e), r),
                        (Ok(_), r) => match p_block(tokens, r) {
                            (Err(e), t) => (Err(e), t),
                            (Ok(body), t) => match p_expect(tokens, t, FlagType::End) {
                                (Err(e), u) => (Err(e), u),
                                (Ok(_), u) => (
                                    Ok(StatView::While(Box::new(cond), Box::new(body))),
                                    u,
                                ),
                            },
                        },
                    },
                },
            }
        }),
{
    reveal(p_block);
    reveal(p_expr);
    reveal(p_while_do);
}

/// One step of [`p_ranged_for`].
pub proof fn rule_ranged_for(tokens: Seq<Token>, pos: int)
    ensures
        p_ranged_for(tokens, pos) == ({
            match p_eat(tokens, pos, FlagType::For) {
                (Err(e), p) => (Err(e), p),
                (Ok(_), p) => match p_namelist(tokens, p) {
                    (Err(e), q) => (Err(e), q),
                    (Ok(names), q) => match p_expect(tokens, reached(tokens, q, p), FlagType::In) {
                        (Err(e), r) => (Err(e), r),
                        (Ok(_), r) => match p_exprlist(tokens, r) {
                            (Err(e), t) => (Err(e), t),
                            (Ok(exprs), t) => match p_expect(tokens, reached(tokens, t, r), FlagType::Do) {
                                (Err(e), u) => (Err(e), u),
                                (Ok(_), u) => match p_block(tokens, u) {
                                    (Err(e), v) => (Err(e), v),
                                    (Ok(body), v) => (
                                        Ok(StatView::ForRange(names, exprs, Box::new(body))),
                                        v,
                                    ),
                                },
                            },
                        },
                    },
                },
            }
        }),
{
    reveal(p_block);
    reveal(p_exprlist);
    reveal(p_ranged_for);
}

/// One step of [`p_stat`].
pub proof fn rule_stat(tokens: Seq<Token>, pos: int)
    ensures
        p_stat(tokens, pos) == ({
            match peek(tokens, pos) {
                None => (Err(ParserError::SyntaxError), pos),
                Some(Token::Name(_)) => match p_assign(tokens, pos) {
                    (Err(ParserError::ExpectationUnmeet), p) => (Err(ParserError::ParseFailed), p),
                    parsed => parsed,
                },
                Some(Token::Flag(flag)) => match flag {
                    FlagType::Colons => p_stat(tokens, pos + 1),
                    FlagType::Local => p_assign_local(tokens, pos),
                    FlagType::If => p_if_else_clause(tokens, pos),
                    FlagType::While => p_while_do(tokens, pos),
                    FlagType::For => p_ranged_for(tokens, pos),
                    FlagType::Break => (Ok(StatView::Break), pos + 1),
                    FlagType::Return | FlagType::End | FlagType::Elseif | FlagType::Else
                    | FlagType::EOF => (Err(ParserError::ExpectationUnmeet), pos),
                    _ => (Err(ParserError::ParseFailed), pos),
                },
                Some(_) => (Err(ParserError::ParseFailed), pos),
            }
        }),
{
    reveal(p_assign);
    reveal(p_assign_local);
    reveal(p_if_else_clause);
    reveal(p_ranged_for);
    reveal(p_stat);
    reveal(p_while_do);
}

/// One step of [`p_block`].
pub proof fn rule_block(tokens: Seq<Token>, pos: int)
    ensures
        p_block(tokens, pos) == ({
            p_block_rest(tokens, pos, Seq::empty())
        }),
{
    reveal(p_block);
    reveal(p_block_rest);
}

/// One step of [`p_block_rest`].
pub proof fn rule_block_rest(tokens: Seq<Token>, pos: int, stats: Seq<StatView>)
    ensures
        p_block_rest(tokens, pos, stats) == ({
            match p_stat(tokens, pos) {
                (Ok(stat), p) => if pos < p <= tokens.len() {
                    p_block_rest(tokens, p, stats.push(stat))
                } else {
                    (Err(ParserError::ParseFailed), pos)
                },
                (Err(ParserError::ExpectationUnmeet), p) => match p_retstat(tokens, reached(tokens, p, pos)) {
                    (Ok(ret), q) => (Ok(BlockView { stats, ret: Some(ret) }), q),
                    (Err(_), q) => (Ok(BlockView { stats, ret: None }), q),
                },
                (Err(e), p) => (Err(e), p),
            }
        }),
{
    reveal(p_block_rest);
    reveal(p_retstat);
    reveal(p_stat);
}

} // verus!
