//! The rules of statements.

use crate::parser::model::{
    p_assign, p_assign_local, p_block, p_block_rest, p_else_chain, p_expect, p_if_else_clause,
    p_namelist, p_namelist_rest, p_ranged_for, p_retstat, p_stat, p_var, p_varlist, p_varlist_rest,
    p_while_do,
};
use crate::parser::types::{
    exprs_view, lemma_plain_stats_push, lemma_stats_view_push, lemma_vars_view_push, plain_block,
    plain_node, plain_stats, stats_view, vars_view, Block, Expr, ExprView, Name, Node, ParserError,
    Stat, StatView, Var, VarView,
};
use crate::parser::{advanced, gives_block, gives_exprs, gives_names, gives_stat, Parser};
use crate::parser::rules::{
    rule_assign, rule_assign_local, rule_block, rule_block_rest, rule_else_chain,
    rule_if_else_clause, rule_namelist_rest, rule_ranged_for, rule_retstat, rule_stat,
    rule_varlist_rest, rule_while_do,
};
use crate::tokens::{FlagType, Token};
use vstd::prelude::*;

verus! {

impl Parser {
    /// Takes a token of the kind `ft`, on pain of a syntax error.
    pub(crate) fn expect(&mut self, ft: FlagType) -> (r: Result<(), ParserError>)
        requires
            old(self).position() <= old(self).tokens().len(),
        ensures
            advanced(
                p_expect(old(self).tokens(), old(self).position(), ft),
                *old(self),
                *final(self),
            ),
            r == p_expect(old(self).tokens(), old(self).position(), ft).0,
            r is Ok ==> final(self).position() == old(self).position() + 1,
    {
        match self.eat(ft) {
            Ok(()) => Ok(()),
            Err(_) => Err(ParserError::SyntaxError),
        }
    }

    /// var: Name
    pub(crate) fn var(&mut self) -> (r: Result<Var, ParserError>)
        requires
            old(self).position() <= old(self).tokens().len(),
        ensures
            advanced(p_var(old(self).tokens(), old(self).position()), *old(self), *final(self)),
            match p_var(old(self).tokens(), old(self).position()).0 {
                Ok(view) => r matches Ok(var) && var@ == view,
                Err(e) => r matches Err(err) && err == e,
            },
            r is Ok ==> final(self).position() == old(self).position() + 1,
    {
        if let Some(Token::Name(id)) = self.peek_clone() {
            self.skip();
            Ok(Var::Name(id))
        } else {
            Err(ParserError::ParseFailed)
        }
    }

    /// varlist: var {Comma var}
    pub(crate) fn varlist(&mut self) -> (r: Result<Vec<Var>, ParserError>)
        requires
            old(self).position() <= old(self).tokens().len(),
        ensures
            advanced(
                p_varlist(old(self).tokens(), old(self).position()),
                *old(self),
                *final(self),
            ),
            match p_varlist(old(self).tokens(), old(self).position()).0 {
                Ok(view) => r matches Ok(list) && vars_view(list@) == view,
                Err(e) => r matches Err(err) && err == e,
            },
            r is Ok ==> final(self).position() > old(self).position(),
    {
        let var = self.var()?;
        let mut list: Vec<Var> = Vec::new();
        list.push(var);
        proof {
            lemma_vars_view_push(Seq::empty(), var);
            assert(Seq::<Var>::empty().push(var) =~= list@);
            assert(vars_view(Seq::<Var>::empty()) =~= Seq::<VarView>::empty());
            assert(Seq::<VarView>::empty().push(var@) =~= seq![var@]);
        }
        loop
            invariant
                self.tokens() == old(self).tokens(),
                old(self).position() < self.position() <= self.tokens().len(),
                p_varlist(old(self).tokens(), old(self).position()) == p_varlist_rest(
                    self.tokens(),
                    self.position(),
                    vars_view(list@),
                ),
            decreases self.tokens().len() - self.position(),
        {
            proof {
                rule_varlist_rest(self.tokens(), self.position(), vars_view(list@));
            }
            match self.peek_flag() {
                Some(FlagType::Comma) => {
                    self.skip();
                    match self.var() {
                        Ok(var) => {
                            proof {
                                lemma_vars_view_push(list@, var);
                            }
                            list.push(var);
                        },
                        Err(e) => {
                            return Err(e);
                        },
                    }
                },
                _ => {
                    return Ok(list);
                },
            }
        }
    }

    /// namelist: Name {Comma Name}
    pub(crate) fn namelist(&mut self) -> (r: Result<Vec<Name>, ParserError>)
        requires
            old(self).position() <= old(self).tokens().len(),
        ensures
            gives_names(
                p_namelist(old(self).tokens(), old(self).position()),
                *old(self),
                *final(self),
                r,
            ),
    {
        let name = self.name()?;
        let mut list: Vec<Name> = Vec::new();
        list.push(name);
        assert(list@ =~= seq![name]);
        loop
            invariant
                self.tokens() == old(self).tokens(),
                old(self).position() <= self.position() <= self.tokens().len(),
                p_namelist(old(self).tokens(), old(self).position()) == p_namelist_rest(
                    self.tokens(),
                    self.position(),
                    list@,
                ),
            decreases self.tokens().len() - self.position(),
        {
            proof {
                rule_namelist_rest(self.tokens(), self.position(), list@);
            }
            match self.peek_flag() {
                Some(FlagType::Comma) => {
                    self.skip();
                    match self.name() {
                        Ok(name) => {
                            list.push(name);
                        },
                        Err(e) => {
                            return Err(e);
                        },
                    }
                },
                _ => {
                    return Ok(list);
                },
            }
        }
    }

    /// assign: varlist Assign exprlist
    pub(crate) fn assign(&mut self) -> (r: Result<Box<Stat>, ParserError>)
        requires
            old(self).position() <= old(self).tokens().len(),
        ensures
            gives_stat(
                p_assign(old(self).tokens(), old(self).position()),
                *old(self),
                *final(self),
                r,
            ),
            r is Ok ==> final(self).position() > old(self).position(),
        decreases old(self).tokens().len() - old(self).position(), 36int,
    {
        proof {
            rule_assign(self.tokens(), self.position());
        }
        let varlist = self.varlist()?;
        if let Ok(_) = self.eat(FlagType::Assign) {
            let exprlist = self.exprlist()?;
            Ok(Box::new(Stat::Assign(varlist, exprlist)))
        } else {
            Err(ParserError::ExpectationUnmeet)
        }
    }

    /// assign_local: Local namelist Assign exprlist
    pub(crate) fn assign_local(&mut self) -> (r: Result<Box<Stat>, ParserError>)
        requires
            old(self).position() <= old(self).tokens().len(),
        ensures
            gives_stat(
                p_assign_local(old(self).tokens(), old(self).position()),
                *old(self),
                *final(self),
                r,
            ),
            r is Ok ==> final(self).position() > old(self).position(),
        decreases old(self).tokens().len() - old(self).position(), 36int,
    {
        proof {
            rule_assign_local(self.tokens(), self.position());
        }
        self.eat(FlagType::Local)?;
        let namelist = self.namelist()?;
        if let Ok(_) = self.eat(FlagType::Assign) {
            let exprlist = self.exprlist()?;
            Ok(Box::new(Stat::AssignLocal(namelist, exprlist)))
        } else {
            Err(ParserError::SyntaxError)
        }
    }

    /// retstat: Return [exprlist] [Colons]
    pub(crate) fn retstat(&mut self) -> (r: Result<Vec<Box<Expr>>, ParserError>)
        requires
            old(self).position() <= old(self).tokens().len(),
        ensures
            gives_exprs(
                p_retstat(old(self).tokens(), old(self).position()),
                *old(self),
                *final(self),
                r,
            ),
        decreases old(self).tokens().len() - old(self).position(), 36int,
    {
        proof {
            rule_retstat(self.tokens(), self.position());
        }
        self.eat(FlagType::Return)?;
        let list = match self.exprlist() {
            Ok(list) => list,
            Err(_) => {
                let none: Vec<Box<Expr>> = Vec::new();
                assert(exprs_view(none@) =~= Seq::<ExprView>::empty());
                none
            },
        };
        // a semicolon may close the return
        let _ = self.eat(FlagType::Colons);
        Ok(list)
    }

    /// if_else: If expr Then block {Elseif expr Then block} [Else block] End
    pub(crate) fn if_else_clause(&mut self) -> (r: Result<Box<Stat>, ParserError>)
        requires
            old(self).position() <= old(self).tokens().len(),
        ensures
            gives_stat(
                p_if_else_clause(old(self).tokens(), old(self).position()),
                *old(self),
                *final(self),
                r,
            ),
            r is Ok ==> final(self).position() > old(self).position(),
        decreases old(self).tokens().len() - old(self).position(), 36int,
    {
        proof {
            rule_if_else_clause(self.tokens(), self.position());
        }
        self.eat(FlagType::If)?;
        let expr = self.expr()?;
        self.eat(FlagType::Then)?;
        let then_block = self.block()?;
        let otherwise = self.else_chain()?;
        self.expect(FlagType::End)?;
        Ok(Box::new(Stat::IfElse(expr, Box::new(then_block), otherwise)))
    }

    /// The branches behind the first: `{Elseif expr Then block} [Else block]`.
    pub(crate) fn else_chain(&mut self) -> (r: Result<Option<Box<Block>>, ParserError>)
        requires
            old(self).position() <= old(self).tokens().len(),
        ensures
            advanced(
                p_else_chain(old(self).tokens(), old(self).position()),
                *old(self),
                *final(self),
            ),
            match p_else_chain(old(self).tokens(), old(self).position()).0 {
                Ok(Some(view)) => r matches Ok(Some(block)) && block@ == view && plain_block(
                    *block,
                ),
                Ok(None) => r matches Ok(None),
                Err(e) => r matches Err(err) && err == e,
            },
        decreases old(self).tokens().len() - old(self).position(), 35int,
    {
        proof {
            rule_else_chain(self.tokens(), self.position());
        }
        match self.peek_flag() {
            Some(FlagType::Elseif) => {
                self.skip();
                let expr = self.expr()?;
                self.expect(FlagType::Then)?;
                let then_block = self.block()?;
                let otherwise = self.else_chain()?;
                // the branch is an if of its own inside the else
                let clause = Box::new(Stat::IfElse(expr, Box::new(then_block), otherwise));
                let mut stats: Vec<Box<Stat>> = Vec::new();
                stats.push(clause);
                proof {
                    lemma_plain_stats_push(Seq::empty(), clause);
                    lemma_stats_view_push(Seq::empty(), clause);
                    assert(Seq::<Box<Stat>>::empty().push(clause) =~= stats@);
                    assert(stats_view(Seq::<Box<Stat>>::empty()) =~= Seq::<StatView>::empty());
                    assert(Seq::<StatView>::empty().push(clause@) =~= seq![clause@]);
                }
                Ok(Some(Box::new(Block::new(stats, None))))
            },
            Some(FlagType::Else) => {
                self.skip();
                let block = self.block()?;
                Ok(Some(Box::new(block)))
            },
            _ => Ok(None),
        }
    }

    /// while_do: While expr Do block End
    pub(crate) fn while_do(&mut self) -> (r: Result<Box<Stat>, ParserError>)
        requires
            old(self).position() <= old(self).tokens().len(),
        ensures
            gives_stat(
                p_while_do(old(self).tokens(), old(self).position()),
                *old(self),
                *final(self),
                r,
            ),
            r is Ok ==> final(self).position() > old(self).position(),
        decreases old(self).tokens().len() - old(self).position(), 36int,
    {
        proof {
            rule_while_do(self.tokens(), self.position());
        }
        self.eat(FlagType::While)?;
        let expr = self.expr()?;
        self.expect(FlagType::Do)?;
        let block = self.block()?;
        self.expect(FlagType::End)?;
        Ok(Box::new(Stat::While(expr, Box::new(block))))
    }

    /// ranged_for: For namelist In exprlist Do block
    pub(crate) fn ranged_for(&mut self) -> (r: Result<Box<Stat>, ParserError>)
        requires
            old(self).position() <= old(self).tokens().len(),
        ensures
            gives_stat(
                p_ranged_for(old(self).tokens(), old(self).position()),
                *old(self),
                *final(self),
                r,
            ),
            r is Ok ==> final(self).position() > old(self).position(),
        decreases old(self).tokens().len() - old(self).position(), 36int,
    {
        proof {
            rule_ranged_for(self.tokens(), self.position());
        }
        self.eat(FlagType::For)?;
        let namelist = self.namelist()?;
        self.expect(FlagType::In)?;
        let exprlist = self.exprlist()?;
        self.expect(FlagType::Do)?;
        let block = self.block()?;
        Ok(Box::new(Stat::ForRange(namelist, exprlist, Box::new(block))))
    }

    /// stat: {Colons} (assign_local | assign | if_else | while_do | ranged_for | Break)
    pub(crate) fn stat(&mut self) -> (r: Result<Box<Stat>, ParserError>)
        requires
            old(self).position() <= old(self).tokens().len(),
        ensures
            gives_stat(
                p_stat(old(self).tokens(), old(self).position()),
                *old(self),
                *final(self),
                r,
            ),
            r is Ok ==> final(self).position() > old(self).position(),
        decreases old(self).tokens().len() - old(self).position(), 37int,
    {
        proof {
            rule_stat(self.tokens(), self.position());
        }
        match self.peek_clone() {
            None => Err(ParserError::SyntaxError),
            Some(Token::Name(_)) => {
                match self.assign() {
                    Ok(stat) => Ok(stat),
                    // a name that starts no assignment
                    Err(ParserError::ExpectationUnmeet) => Err(ParserError::ParseFailed),
                    Err(e) => Err(e),
                }
            },
            Some(Token::Flag(flag)) => {
                match flag {
                    // an empty statement is dropped
                    FlagType::Colons => {
                        self.skip();
                        self.stat()
                    },
                    FlagType::Local => self.assign_local(),
                    FlagType::If => self.if_else_clause(),
                    FlagType::While => self.while_do(),
                    FlagType::For => self.ranged_for(),
                    FlagType::Break => {
                        self.skip();
                        Ok(Box::new(Stat::Break))
                    },
                    // a block ends here
                    FlagType::Return | FlagType::End | FlagType::Elseif | FlagType::Else
                    | FlagType::EOF => Err(ParserError::ExpectationUnmeet),
                    _ => Err(ParserError::ParseFailed),
                }
            },
            Some(_) => Err(ParserError::ParseFailed),
        }
    }

    /// block: {stat} [retstat]
    pub(crate) fn block(&mut self) -> (r: Result<Block, ParserError>)
        requires
            old(self).position() <= old(self).tokens().len(),
        ensures
            gives_block(
                p_block(old(self).tokens(), old(self).position()),
                *old(self),
                *final(self),
                r,
            ),
        decreases old(self).tokens().len() - old(self).position(), 39int,
    {
        proof {
            rule_block(self.tokens(), self.position());
        }
        let mut stats: Vec<Box<Stat>> = Vec::new();
        assert(stats_view(stats@) =~= Seq::<StatView>::empty());
        loop
            invariant
                self.tokens() == old(self).tokens(),
                old(self).position() <= self.position() <= self.tokens().len(),
                p_block(old(self).tokens(), old(self).position()) == p_block_rest(
                    self.tokens(),
                    self.position(),
                    stats_view(stats@),
                ),
                plain_stats(stats@),
            decreases self.tokens().len() - self.position(),
        {
            proof {
                rule_block_rest(self.tokens(), self.position(), stats_view(stats@));
            }
            match self.stat() {
                Ok(stat) => {
                    proof {
                        lemma_stats_view_push(stats@, stat);
                        lemma_plain_stats_push(stats@, stat);
                    }
                    stats.push(stat);
                },
                Err(ParserError::ExpectationUnmeet) => {
                    let ret = match self.retstat() {
                        Ok(list) => Some(list),
                        Err(_) => None,
                    };
                    return Ok(Block::new(stats, ret));
                },
                Err(e) => {
                    return Err(e);
                },
            }
        }
    }

    /// program: block
    pub(crate) fn program(&mut self) -> (r: Result<Box<Node>, ParserError>)
        requires
            old(self).position() <= old(self).tokens().len(),
        ensures
            match p_block(old(self).tokens(), old(self).position()).0 {
                Ok(view) => r matches Ok(node) && node@ == crate::parser::types::NodeView::Block(
                    view,
                ) && plain_node(*node),
                Err(e) => r matches Err(err) && err == e,
            },
    {
        let block = self.block()?;
        Ok(Box::new(Node::Block(block)))
    }
}

} // verus!
