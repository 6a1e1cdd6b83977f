//! The rules of expressions.

use crate::parser::model::{
    p_arglist, p_arglist_rest, p_conj, p_conj_rest, p_disj, p_disj_rest, p_dots, p_equality,
    p_expr, p_exprlist, p_exprlist_rest, p_factor, p_function_body, p_function_def, p_logical_rest,
    p_logical_term, p_name, p_name_complement, p_parlist, p_parlist_rest, p_prefixexp,
    p_prefixexp_expand, p_term, p_term_rest, Parsed,
};
use crate::parser::types::{
    exprs_view, lemma_exprs_view_push, lemma_plain_exprs_push, plain_block, plain_expr,
    plain_exprs, var_view, Block, BlockView, Expr, ExprView, Name, ParserError, PrefixExp, Var,
    VarView,
};
use crate::parser::{advanced, gives_expr, gives_exprs, Parser};
use crate::parser::rules::{
    rule_arglist, rule_arglist_rest, rule_conj, rule_conj_rest, rule_disj, rule_disj_rest,
    rule_equality, rule_expr, rule_exprlist, rule_exprlist_rest, rule_factor, rule_function_body,
    rule_function_def, rule_logical_rest, rule_logical_term, rule_name_complement,
    rule_parlist_rest, rule_prefixexp, rule_term, rule_term_rest,
};
use crate::tokens::{FlagType, Token};
use vstd::prelude::*;

verus! {

/// A rule that gives a prefix expression was applied as its model says.
pub open spec fn gives_prefix(
    model: Parsed<(ExprView, PrefixExp)>,
    before: Parser,
    after: Parser,
    r: Result<(Box<Expr>, PrefixExp), ParserError>,
) -> bool {
    &&& advanced(model, before, after)
    &&& match model.0 {
        Ok((view, kind)) => r matches Ok((expr, k)) && expr@ == view && k == kind && plain_expr(
            *expr,
        ),
        Err(e) => r matches Err(err) && err == e,
    }
}

/// A rule that gives a list of arguments was applied as its model says.
pub open spec fn gives_args(
    model: Parsed<(Seq<ExprView>, bool)>,
    before: Parser,
    after: Parser,
    r: Result<(Vec<Box<Expr>>, bool), ParserError>,
) -> bool {
    &&& advanced(model, before, after)
    &&& match model.0 {
        Ok((view, dots)) => r matches Ok((list, d)) && exprs_view(list@) == view && d == dots
            && plain_exprs(list@),
        Err(e) => r matches Err(err) && err == e,
    }
}

/// A rule that gives a list of parameters was applied as its model says.
pub open spec fn gives_params(
    model: Parsed<(Seq<Name>, bool)>,
    before: Parser,
    after: Parser,
    r: Result<(Vec<Name>, bool), ParserError>,
) -> bool {
    &&& advanced(model, before, after)
    &&& match model.0 {
        Ok((view, dots)) => r matches Ok((list, d)) && list@ == view && d == dots,
        Err(e) => r matches Err(err) && err == e,
    }
}

/// A rule that gives the parameters and the body of a function was applied
/// as its model says.
pub open spec fn gives_body(
    model: Parsed<((Seq<Name>, bool), BlockView)>,
    before: Parser,
    after: Parser,
    r: Result<((Vec<Name>, bool), Block), ParserError>,
) -> bool {
    &&& advanced(model, before, after)
    &&& match model.0 {
        Ok(((names, dots), body)) => r matches Ok(((list, d), block)) && list@ == names && d
            == dots && block@ == body && plain_block(block),
        Err(e) => r matches Err(err) && err == e,
    }
}

impl Parser {
    /// name: Name
    pub(crate) fn name(&mut self) -> (r: Result<Name, ParserError>)
        requires
            old(self).position() <= old(self).tokens().len(),
        ensures
            advanced(p_name(old(self).tokens(), old(self).position()), *old(self), *final(self)),
            r == p_name(old(self).tokens(), old(self).position()).0,
            r is Ok ==> final(self).position() == old(self).position() + 1,
    {
        if let Some(Token::Name(id)) = self.peek_clone() {
            self.skip();
            Ok(id)
        } else {
            Err(ParserError::SyntaxError)
        }
    }

    /// factor: (Plus | Minus) factor | Number | String | True | False | prefixexp
    pub(crate) fn factor(&mut self) -> (r: Result<Box<Expr>, ParserError>)
        requires
            old(self).position() <= old(self).tokens().len(),
        ensures
            gives_expr(
                p_factor(old(self).tokens(), old(self).position()),
                *old(self),
                *final(self),
                r,
            ),
        decreases old(self).tokens().len() - old(self).position(), 13int,
    {
        proof {
            rule_factor(self.tokens(), self.position());
        }
        match self.peek_clone() {
            Some(Token::Num(n)) => {
                self.skip();
                Ok(Box::new(Expr::Num(n)))
            },
            Some(Token::Str(s)) => {
                self.skip();
                Ok(Box::new(Expr::Str(s)))
            },
            Some(Token::Name(_)) => {
                let (node, _) = self.prefixexp()?;
                Ok(node)
            },
            Some(Token::Flag(t)) => {
                if t == FlagType::Plus || t == FlagType::Minus {
                    self.skip();
                    let node = self.factor()?;
                    Ok(Box::new(Expr::UnaryOp(t, node)))
                } else if t == FlagType::LParen {
                    let (node, _) = self.prefixexp()?;
                    Ok(node)
                } else if t == FlagType::True {
                    self.skip();
                    Ok(Box::new(Expr::Boole(true)))
                } else if t == FlagType::False {
                    self.skip();
                    Ok(Box::new(Expr::Boole(false)))
                } else {
                    Err(ParserError::SyntaxError)
                }
            },
            // the tokens have ended early
            None => Err(ParserError::SyntaxError),
        }
    }

    /// term: factor {(Mul | Div) factor}
    pub(crate) fn term(&mut self) -> (r: Result<Box<Expr>, ParserError>)
        requires
            old(self).position() <= old(self).tokens().len(),
        ensures
            gives_expr(
                p_term(old(self).tokens(), old(self).position()),
                *old(self),
                *final(self),
                r,
            ),
        decreases old(self).tokens().len() - old(self).position(), 15int,
    {
        proof {
            rule_term(self.tokens(), self.position());
        }
        let mut node = self.factor()?;
        loop
            invariant
                self.tokens() == old(self).tokens(),
                old(self).position() <= self.position() <= self.tokens().len(),
                p_term(old(self).tokens(), old(self).position()) == p_term_rest(
                    self.tokens(),
                    self.position(),
                    node@,
                ),
                plain_expr(*node),
            decreases self.tokens().len() - self.position(),
        {
            proof {
                rule_term_rest(self.tokens(), self.position(), node@);
            }
            let flag = match self.peek_flag() {
                Some(flag) => flag,
                None => {
                    return Ok(node);
                },
            };
            if flag == FlagType::Mul || flag == FlagType::Div {
                self.skip();
                match self.factor() {
                    Ok(right) => {
                        node = Box::new(Expr::BinOp(flag, node, right));
                    },
                    Err(e) => {
                        return Err(e);
                    },
                }
            } else {
                return Ok(node);
            }
        }
    }

    /// logical_term: term {(Plus | Minus) term}
    pub(crate) fn logical_term(&mut self) -> (r: Result<Box<Expr>, ParserError>)
        requires
            old(self).position() <= old(self).tokens().len(),
        ensures
            gives_expr(
                p_logical_term(old(self).tokens(), old(self).position()),
                *old(self),
                *final(self),
                r,
            ),
        decreases old(self).tokens().len() - old(self).position(), 17int,
    {
        proof {
            rule_logical_term(self.tokens(), self.position());
        }
        let mut node = self.term()?;
        loop
            invariant
                self.tokens() == old(self).tokens(),
                old(self).position() <= self.position() <= self.tokens().len(),
                p_logical_term(old(self).tokens(), old(self).position()) == p_logical_rest(
                    self.tokens(),
                    self.position(),
                    node@,
                ),
                plain_expr(*node),
            decreases self.tokens().len() - self.position(),
        {
            proof {
                rule_logical_rest(self.tokens(), self.position(), node@);
            }
            let flag = match self.peek_flag() {
                Some(flag) => flag,
                None => {
                    return Ok(node);
                },
            };
            if flag == FlagType::Plus || flag == FlagType::Minus {
                self.skip();
                match self.term() {
                    Ok(right) => {
                        node = Box::new(Expr::BinOp(flag, node, right));
                    },
                    Err(e) => {
                        return Err(e);
                    },
                }
            } else {
                return Ok(node);
            }
        }
    }

    /// equality: logical_term [(EQ | NEQ) logical_term]
    pub(crate) fn equality(&mut self) -> (r: Result<Box<Expr>, ParserError>)
        requires
            old(self).position() <= old(self).tokens().len(),
        ensures
            gives_expr(
                p_equality(old(self).tokens(), old(self).position()),
                *old(self),
                *final(self),
                r,
            ),
        decreases old(self).tokens().len() - old(self).position(), 18int,
    {
        proof {
            rule_equality(self.tokens(), self.position());
        }
        let node = self.logical_term()?;
        let flag = match self.peek_flag() {
            Some(flag) => flag,
            None => {
                return Ok(node);
            },
        };
        if flag == FlagType::EQ || flag == FlagType::NEQ {
            self.skip();
            let right = self.logical_term()?;
            Ok(Box::new(Expr::BinOp(flag, node, right)))
        } else {
            Ok(node)
        }
    }

    /// conj: equality {AND equality}
    pub(crate) fn conj(&mut self) -> (r: Result<Box<Expr>, ParserError>)
        requires
            old(self).position() <= old(self).tokens().len(),
        ensures
            gives_expr(
                p_conj(old(self).tokens(), old(self).position()),
                *old(self),
                *final(self),
                r,
            ),
        decreases old(self).tokens().len() - old(self).position(), 20int,
    {
        proof {
            rule_conj(self.tokens(), self.position());
        }
        let mut node = self.equality()?;
        loop
            invariant
                self.tokens() == old(self).tokens(),
                old(self).position() <= self.position() <= self.tokens().len(),
                p_conj(old(self).tokens(), old(self).position()) == p_conj_rest(
                    self.tokens(),
                    self.position(),
                    node@,
                ),
                plain_expr(*node),
            decreases self.tokens().len() - self.position(),
        {
            proof {
                rule_conj_rest(self.tokens(), self.position(), node@);
            }
            let flag = match self.peek_flag() {
                Some(flag) => flag,
                None => {
                    return Ok(node);
                },
            };
            if flag == FlagType::AND {
                self.skip();
                match self.equality() {
                    Ok(right) => {
                        node = Box::new(Expr::BinOp(flag, node, right));
                    },
                    Err(e) => {
                        return Err(e);
                    },
                }
            } else {
                return Ok(node);
            }
        }
    }

    /// disj: conj {OR conj}
    pub(crate) fn disj(&mut self) -> (r: Result<Box<Expr>, ParserError>)
        requires
            old(self).position() <= old(self).tokens().len(),
        ensures
            gives_expr(
                p_disj(old(self).tokens(), old(self).position()),
                *old(self),
                *final(self),
                r,
            ),
        decreases old(self).tokens().len() - old(self).position(), 22int,
    {
        proof {
            rule_disj(self.tokens(), self.position());
        }
        let mut node = self.conj()?;
        loop
            invariant
                self.tokens() == old(self).tokens(),
                old(self).position() <= self.position() <= self.tokens().len(),
                p_disj(old(self).tokens(), old(self).position()) == p_disj_rest(
                    self.tokens(),
                    self.position(),
                    node@,
                ),
                plain_expr(*node),
            decreases self.tokens().len() - self.position(),
        {
            proof {
                rule_disj_rest(self.tokens(), self.position(), node@);
            }
            let flag = match self.peek_flag() {
                Some(flag) => flag,
                None => {
                    return Ok(node);
                },
            };
            if flag == FlagType::OR {
                self.skip();
                match self.conj() {
                    Ok(right) => {
                        node = Box::new(Expr::BinOp(flag, node, right));
                    },
                    Err(e) => {
                        return Err(e);
                    },
                }
            } else {
                return Ok(node);
            }
        }
    }

    /// expr: function_def | disj
    pub(crate) fn expr(&mut self) -> (r: Result<Box<Expr>, ParserError>)
        requires
            old(self).position() <= old(self).tokens().len(),
        ensures
            gives_expr(
                p_expr(old(self).tokens(), old(self).position()),
                *old(self),
                *final(self),
                r,
            ),
        decreases old(self).tokens().len() - old(self).position(), 27int,
    {
        proof {
            rule_expr(self.tokens(), self.position());
        }
        match self.peek_flag() {
            Some(FlagType::Function) => self.function_def(),
            _ => self.disj(),
        }
    }

    /// A prefix expression that goes on with `:` or `.` is not parsed.
    pub(crate) fn prefixexp_expand(&mut self, prefix: (Box<Expr>, PrefixExp)) -> (r: Result<
        (Box<Expr>, PrefixExp),
        ParserError,
    >)
        requires
            old(self).position() <= old(self).tokens().len(),
            plain_expr(*prefix.0),
        ensures
            gives_prefix(
                p_prefixexp_expand(old(self).tokens(), old(self).position(), (prefix.0@, prefix.1)),
                *old(self),
                *final(self),
                r,
            ),
    {
        match self.peek_flag() {
            Some(FlagType::Colons) => Err(ParserError::ParseFailed),
            Some(FlagType::Dot) => Err(ParserError::ParseFailed),
            _ => Ok(prefix),
        }
    }

    /// prefixexp: Name [name_complement] | LParen expr RParen
    pub(crate) fn prefixexp(&mut self) -> (r: Result<(Box<Expr>, PrefixExp), ParserError>)
        requires
            old(self).position() <= old(self).tokens().len(),
        ensures
            gives_prefix(
                p_prefixexp(old(self).tokens(), old(self).position()),
                *old(self),
                *final(self),
                r,
            ),
        decreases old(self).tokens().len() - old(self).position(), 12int,
    {
        proof {
            rule_prefixexp(self.tokens(), self.position());
        }
        let prefix = match self.peek_clone() {
            Some(Token::Flag(FlagType::LParen)) => {
                self.skip();
                let node = self.expr()?;
                self.eat(FlagType::RParen)?;
                (node, PrefixExp::Other)
            },
            // a name, or a name with what follows it
            Some(Token::Name(name)) => {
                self.skip();
                let node = Box::new(Expr::Var(Var::Name(name)));
                proof {
                    assert(var_view(Var::Name(name)) == VarView::Name(name));
                    assert(node@ == ExprView::Var(VarView::Name(name)));
                }
                self.name_complement(node)?
            },
            _ => {
                return Err(ParserError::ParseFailed);
            },
        };
        self.prefixexp_expand(prefix)
    }

    /// name_complement: LParen arglist RParen | nothing
    pub(crate) fn name_complement(&mut self, prefix: Box<Expr>) -> (r: Result<
        (Box<Expr>, PrefixExp),
        ParserError,
    >)
        requires
            old(self).position() <= old(self).tokens().len(),
            plain_expr(*prefix),
        ensures
            gives_prefix(
                p_name_complement(old(self).tokens(), old(self).position(), prefix@),
                *old(self),
                *final(self),
                r,
            ),
        decreases old(self).tokens().len() - old(self).position(), 11int,
    {
        proof {
            rule_name_complement(self.tokens(), self.position(), prefix@);
        }
        match self.peek_flag() {
            Some(FlagType::LParen) => {
                self.skip();
                let (args, is_vararg) = self.arglist()?;
                self.eat(FlagType::RParen)?;
                let node = Box::new(Expr::FunctionCall(prefix, args, is_vararg));
                Ok((node, PrefixExp::FuncCall))
            },
            Some(FlagType::Colons) => Err(ParserError::ParseFailed),
            Some(FlagType::Dot) => Err(ParserError::ParseFailed),
            // nothing follows the name
            _ => Ok((prefix, PrefixExp::Var)),
        }
    }

    /// Takes `...` if it is the next token.
    pub(crate) fn dots(&mut self) -> (r: bool)
        requires
            old(self).position() <= old(self).tokens().len(),
        ensures
            final(self).tokens() == old(self).tokens(),
            (r, final(self).position()) == p_dots(old(self).tokens(), old(self).position()),
            old(self).position() <= final(self).position() <= final(self).tokens().len(),
    {
        match self.peek_flag() {
            Some(FlagType::ThreeDot) => {
                self.skip();
                true
            },
            _ => false,
        }
    }

    /// arglist: [expr | ThreeDot] {Comma (expr | ThreeDot)}
    pub(crate) fn arglist(&mut self) -> (r: Result<(Vec<Box<Expr>>, bool), ParserError>)
        requires
            old(self).position() <= old(self).tokens().len(),
        ensures
            gives_args(
                p_arglist(old(self).tokens(), old(self).position()),
                *old(self),
                *final(self),
                r,
            ),
        decreases old(self).tokens().len() - old(self).position(), 31int,
    {
        proof {
            rule_arglist(self.tokens(), self.position());
        }
        let mut list: Vec<Box<Expr>> = Vec::new();
        let mut var_arg = false;
        match self.expr() {
            Ok(expr) => {
                list.push(expr);
                proof {
                    lemma_plain_exprs_push(Seq::empty(), expr);
                    lemma_exprs_view_push(Seq::empty(), expr);
                    assert(Seq::<Box<Expr>>::empty().push(expr) =~= list@);
                    assert(exprs_view(Seq::<Box<Expr>>::empty()) =~= Seq::<ExprView>::empty());
                    assert(Seq::<ExprView>::empty().push(expr@) =~= seq![expr@]);
                }
            },
            Err(_) => {
                var_arg = self.dots();
                assert(exprs_view(list@) =~= Seq::<ExprView>::empty());
            },
        }
        loop
            invariant
                self.tokens() == old(self).tokens(),
                old(self).position() <= self.position() <= self.tokens().len(),
                p_arglist(old(self).tokens(), old(self).position()) == p_arglist_rest(
                    self.tokens(),
                    self.position(),
                    exprs_view(list@),
                    var_arg,
                ),
                plain_exprs(list@),
            decreases self.tokens().len() - self.position(),
        {
            proof {
                rule_arglist_rest(self.tokens(), self.position(), exprs_view(list@), var_arg);
            }
            match self.peek_flag() {
                Some(FlagType::Comma) => {
                    self.skip();
                    match self.expr() {
                        Ok(expr) => {
                            proof {
                                lemma_exprs_view_push(list@, expr);
                                lemma_plain_exprs_push(list@, expr);
                            }
                            list.push(expr);
                        },
                        Err(_) => {
                            if self.dots() {
                                var_arg = true;
                            } else {
                                return Err(ParserError::SyntaxError);
                            }
                        },
                    }
                },
                _ => {
                    return Ok((list, var_arg));
                },
            }
        }
    }

    /// parlist: [Name | ThreeDot] {Comma (Name | ThreeDot)}
    pub(crate) fn parlist(&mut self) -> (r: Result<(Vec<Name>, bool), ParserError>)
        requires
            old(self).position() <= old(self).tokens().len(),
        ensures
            gives_params(
                p_parlist(old(self).tokens(), old(self).position()),
                *old(self),
                *final(self),
                r,
            ),
    {
        let mut list: Vec<Name> = Vec::new();
        let mut multiret = false;
        match self.name() {
            Ok(name) => {
                list.push(name);
                assert(list@ =~= seq![name]);
            },
            Err(_) => {
                multiret = self.dots();
                assert(list@ =~= Seq::<Name>::empty());
            },
        }
        loop
            invariant
                self.tokens() == old(self).tokens(),
                old(self).position() <= self.position() <= self.tokens().len(),
                p_parlist(old(self).tokens(), old(self).position()) == p_parlist_rest(
                    self.tokens(),
                    self.position(),
                    list@,
                    multiret,
                ),
            decreases self.tokens().len() - self.position(),
        {
            proof {
                rule_parlist_rest(self.tokens(), self.position(), list@, multiret);
            }
            match self.peek_flag() {
                Some(FlagType::Comma) => {
                    self.skip();
                    match self.name() {
                        Ok(name) => {
                            list.push(name);
                        },
                        Err(_) => {
                            if self.dots() {
                                multiret = true;
                            } else {
                                return Err(ParserError::SyntaxError);
                            }
                        },
                    }
                },
                _ => {
                    return Ok((list, multiret));
                },
            }
        }
    }

    /// function_def: Function function_body End
    pub(crate) fn function_def(&mut self) -> (r: Result<Box<Expr>, ParserError>)
        requires
            old(self).position() <= old(self).tokens().len(),
        ensures
            gives_expr(
                p_function_def(old(self).tokens(), old(self).position()),
                *old(self),
                *final(self),
                r,
            ),
        decreases old(self).tokens().len() - old(self).position(), 26int,
    {
        proof {
            rule_function_def(self.tokens(), self.position());
        }
        self.eat(FlagType::Function)?;
        let (paras, content) = self.function_body()?;
        self.eat(FlagType::End)?;
        Ok(Box::new(Expr::FunctionDef(paras, Box::new(content))))
    }

    /// function_body: LParen [parlist] RParen block
    pub(crate) fn function_body(&mut self) -> (r: Result<((Vec<Name>, bool), Block), ParserError>)
        requires
            old(self).position() <= old(self).tokens().len(),
        ensures
            gives_body(
                p_function_body(old(self).tokens(), old(self).position()),
                *old(self),
                *final(self),
                r,
            ),
        decreases old(self).tokens().len() - old(self).position(), 25int,
    {
        proof {
            rule_function_body(self.tokens(), self.position());
        }
        self.eat(FlagType::LParen)?;
        // a list that does not parse means no parameters
        let paras = match self.parlist() {
            Ok(paras) => paras,
            Err(_) => (Vec::new(), false),
        };
        self.eat(FlagType::RParen)?;
        let body = self.block()?;
        Ok((paras, body))
    }

    /// exprlist: expr {Comma expr}
    pub(crate) fn exprlist(&mut self) -> (r: Result<Vec<Box<Expr>>, ParserError>)
        requires
            old(self).position() <= old(self).tokens().len(),
        ensures
            gives_exprs(
                p_exprlist(old(self).tokens(), old(self).position()),
                *old(self),
                *final(self),
                r,
            ),
            r is Ok ==> final(self).position() >= old(self).position(),
        decreases old(self).tokens().len() - old(self).position(), 29int,
    {
        proof {
            rule_exprlist(self.tokens(), self.position());
        }
        let expr = self.expr()?;
        let mut list: Vec<Box<Expr>> = Vec::new();
        list.push(expr);
        proof {
            lemma_plain_exprs_push(Seq::empty(), expr);
            lemma_exprs_view_push(Seq::empty(), expr);
            assert(Seq::<Box<Expr>>::empty().push(expr) =~= list@);
            assert(exprs_view(Seq::<Box<Expr>>::empty()) =~= Seq::<ExprView>::empty());
            assert(Seq::<ExprView>::empty().push(expr@) =~= seq![expr@]);
        }
        loop
            invariant
                self.tokens() == old(self).tokens(),
                old(self).position() <= self.position() <= self.tokens().len(),
                p_exprlist(old(self).tokens(), old(self).position()) == p_exprlist_rest(
                    self.tokens(),
                    self.position(),
                    exprs_view(list@),
                ),
                plain_exprs(list@),
            decreases self.tokens().len() - self.position(),
        {
            proof {
                rule_exprlist_rest(self.tokens(), self.position(), exprs_view(list@));
            }
            match self.peek_flag() {
                Some(FlagType::Comma) => {
                    self.skip();
                    match self.expr() {
                        Ok(expr) => {
                            proof {
                                lemma_exprs_view_push(list@, expr);
                                lemma_plain_exprs_push(list@, expr);
                            }
                            list.push(expr);
                        },
                        Err(e) => {
                            return Err(e);
                        },
                    }
                },
                _ => {
                    return Ok(list);
                },
            }
        }
    }
}

} // verus!
