//! Syntax tree of the source language.

use crate::tokens::FlagType;
use vstd::prelude::*;

verus! {

/// An identifier of the source program.
pub type Name = String;

/// An expression. A numeric literal is kept as the bit pattern of its
/// IEEE-754 double; operators are named by the kind of their token.
#[derive(Debug, PartialEq)]
pub enum Expr {
    Num(u64),
    Boole(bool),
    Var(Var),
    Str(String),
    BinOp(FlagType, Box<Expr>, Box<Expr>),
    UnaryOp(FlagType, Box<Expr>),
    /// Named parameters with the vararg flag, then the body.
    FunctionDef((Vec<Name>, bool), Box<Block>),
    /// Callee, arguments, and whether the argument list ends in `...`.
    FunctionCall(Box<Expr>, Vec<Box<Expr>>, bool),
}

/// A sequence of statements, optionally closed by a return.
#[derive(Debug, PartialEq)]
pub struct Block {
    pub stats: Vec<Box<Stat>>,
    pub ret: Option<Vec<Box<Expr>>>,
}

/// Something that can be read or assigned.
#[derive(Debug, PartialEq)]
pub enum Var {
    Name(Name),
    PrefixExp(Box<Expr>),
    /// A register that already holds the value.
    Reg(u32),
}

/// How a prefix expression ended: in a call, in a variable, or in neither.
#[derive(Clone, Copy, Debug, PartialEq, Eq, Structural)]
pub enum PrefixExp {
    FuncCall,
    Var,
    Other,
}

/// A statement.
#[derive(Debug, PartialEq)]
pub enum Stat {
    Empty,
    Break,
    Assign(Vec<Var>, Vec<Box<Expr>>),
    AssignLocal(Vec<Name>, Vec<Box<Expr>>),
    IfElse(Box<Expr>, Box<Block>, Option<Box<Block>>),
    While(Box<Expr>, Box<Block>),
    ForRange(Vec<Name>, Vec<Box<Expr>>, Box<Block>),
    Ret(Vec<Box<Expr>>),
}

/// A unit handed to the code generator.
#[derive(Debug, PartialEq)]
pub enum Node {
    Expr(Expr),
    Block(Block),
}

/// Why a token stream was not accepted.
#[derive(Clone, Copy, Debug, PartialEq, Eq, Structural)]
pub enum ParserError {
    SyntaxError,
    ExpectationUnmeet,
    ParseFailed,
}

impl Block {
    /// A block of the given statements and closing return.
    pub fn new(body: Vec<Box<Stat>>, ret: Option<Vec<Box<Expr>>>) -> (b: Block)
        ensures
            b.stats == body,
            b.ret == ret,
    {
        Block { stats: body, ret: ret }
    }

    /// The block inside a node, if the node is a block.
    pub fn from_node_enum(node: Node) -> (r: Option<Block>)
        ensures
            match node {
                Node::Block(content) => r == Some(content),
                Node::Expr(_) => r is None,
            },
    {
        if let Node::Block(content) = node {
            Some(content)
        } else {
            None
        }
    }
}

/// An expression is plain when it reads no register by its number: a
/// register stands for a variable only where the generator itself put it.
pub open spec fn plain_expr(expr: Expr) -> bool
    decreases expr,
{
    match expr {
        Expr::Var(var) => !(var is Reg),
        Expr::BinOp(_, left, right) => plain_expr(*left) && plain_expr(*right),
        Expr::UnaryOp(_, operand) => plain_expr(*operand),
        Expr::FunctionDef(_, body) => plain_block(*body),
        Expr::FunctionCall(callee, args, _) => plain_expr(*callee) && plain_exprs(args@),
        _ => true,
    }
}

/// A list of expressions is plain when each of them is.
pub open spec fn plain_exprs(exprs: Seq<Box<Expr>>) -> bool
    decreases exprs,
{
    forall|i: int| 0 <= i < exprs.len() ==> plain_expr(*#[trigger] exprs[i])
}

/// A statement is plain when its expressions are.
pub open spec fn plain_stat(stat: Stat) -> bool
    decreases stat,
{
    match stat {
        Stat::Assign(_, exprs) => plain_exprs(exprs@),
        Stat::AssignLocal(_, exprs) => plain_exprs(exprs@),
        Stat::Ret(exprs) => plain_exprs(exprs@),
        _ => true,
    }
}

/// A list of statements is plain when each of them is.
pub open spec fn plain_stats(stats: Seq<Box<Stat>>) -> bool
    decreases stats,
{
    forall|i: int| 0 <= i < stats.len() ==> plain_stat(*#[trigger] stats[i])
}

/// A block is plain when its statements and its return are.
pub open spec fn plain_block(block: Block) -> bool
    decreases block,
{
    &&& plain_stats(block.stats@)
    &&& match block.ret {
        Some(exprs) => plain_exprs(exprs@),
        None => true,
    }
}

/// A unit is plain when its block is.
pub open spec fn plain_node(ast: Node) -> bool {
    match ast {
        Node::Block(block) => plain_block(block),
        Node::Expr(_) => true,
    }
}

/// A plain list with one more plain expression is plain.
pub proof fn lemma_plain_exprs_push(exprs: Seq<Box<Expr>>, expr: Box<Expr>)
    requires
        plain_exprs(exprs),
        plain_expr(*expr),
    ensures
        plain_exprs(exprs.push(expr)),
{
    assert forall|i: int| 0 <= i < exprs.push(expr).len() implies plain_expr(
        *#[trigger] exprs.push(expr)[i],
    ) by {
        if i < exprs.len() {
            assert(exprs.push(expr)[i] == exprs[i]);
        }
    }
}

/// A plain list with one more plain statement is plain.
pub proof fn lemma_plain_stats_push(stats: Seq<Box<Stat>>, stat: Box<Stat>)
    requires
        plain_stats(stats),
        plain_stat(*stat),
    ensures
        plain_stats(stats.push(stat)),
{
    assert forall|i: int| 0 <= i < stats.push(stat).len() implies plain_stat(
        *#[trigger] stats.push(stat)[i],
    ) by {
        if i < stats.len() {
            assert(stats.push(stat)[i] == stats[i]);
        }
    }
}

/// What an expression is, with every list taken as a sequence.
pub ghost enum ExprView {
    Num(u64),
    Boole(bool),
    Var(VarView),
    Str(String),
    BinOp(FlagType, Box<ExprView>, Box<ExprView>),
    UnaryOp(FlagType, Box<ExprView>),
    FunctionDef(Seq<Name>, bool, Box<BlockView>),
    FunctionCall(Box<ExprView>, Seq<ExprView>, bool),
}

/// What a block is.
pub ghost struct BlockView {
    pub stats: Seq<StatView>,
    pub ret: Option<Seq<ExprView>>,
}

/// What a variable is.
pub ghost enum VarView {
    Name(Name),
    PrefixExp(Box<ExprView>),
    Reg(u32),
}

/// What a statement is.
pub ghost enum StatView {
    Empty,
    Break,
    Assign(Seq<VarView>, Seq<ExprView>),
    AssignLocal(Seq<Name>, Seq<ExprView>),
    IfElse(Box<ExprView>, Box<BlockView>, Option<Box<BlockView>>),
    While(Box<ExprView>, Box<BlockView>),
    ForRange(Seq<Name>, Seq<ExprView>, Box<BlockView>),
    Ret(Seq<ExprView>),
}

/// What a unit is.
pub ghost enum NodeView {
    Expr(ExprView),
    Block(BlockView),
}

/// The view of an expression.
pub open spec fn expr_view(expr: Expr) -> ExprView
    decreases expr,
{
    match expr {
        Expr::Num(n) => ExprView::Num(n),
        Expr::Boole(b) => ExprView::Boole(b),
        Expr::Var(var) => ExprView::Var(var_view(var)),
        Expr::Str(s) => ExprView::Str(s),
        Expr::BinOp(flag, left, right) => ExprView::BinOp(
            flag,
            Box::new(expr_view(*left)),
            Box::new(expr_view(*right)),
        ),
        Expr::UnaryOp(flag, operand) => ExprView::UnaryOp(flag, Box::new(expr_view(*operand))),
        Expr::FunctionDef((names, is_vararg), body) => ExprView::FunctionDef(
            names@,
            is_vararg,
            Box::new(block_view(*body)),
        ),
        Expr::FunctionCall(callee, args, is_vararg) => ExprView::FunctionCall(
            Box::new(expr_view(*callee)),
            exprs_view(args@),
            is_vararg,
        ),
    }
}

/// The views of a list of expressions.
pub open spec fn exprs_view(exprs: Seq<Box<Expr>>) -> Seq<ExprView>
    decreases exprs,
{
    Seq::new(
        exprs.len(),
        |i: int|
            if 0 <= i < exprs.len() {
                expr_view(*exprs[i])
            } else {
                arbitrary()
            },
    )
}

/// The view of a variable.
pub open spec fn var_view(var: Var) -> VarView
    decreases var,
{
    match var {
        Var::Name(name) => VarView::Name(name),
        Var::PrefixExp(expr) => VarView::PrefixExp(Box::new(expr_view(*expr))),
        Var::Reg(reg) => VarView::Reg(reg),
    }
}

/// The views of a list of variables.
pub open spec fn vars_view(vars: Seq<Var>) -> Seq<VarView>
    decreases vars,
{
    Seq::new(
        vars.len(),
        |i: int|
            if 0 <= i < vars.len() {
                var_view(vars[i])
            } else {
                arbitrary()
            },
    )
}

/// The view of a statement.
pub open spec fn stat_view(stat: Stat) -> StatView
    decreases stat,
{
    match stat {
        Stat::Empty => StatView::Empty,
        Stat::Break => StatView::Break,
        Stat::Assign(vars, exprs) => StatView::Assign(vars_view(vars@), exprs_view(exprs@)),
        Stat::AssignLocal(names, exprs) => StatView::AssignLocal(names@, exprs_view(exprs@)),
        Stat::IfElse(cond, then, otherwise) => StatView::IfElse(
            Box::new(expr_view(*cond)),
            Box::new(block_view(*then)),
            match otherwise {
                Some(block) => Some(Box::new(block_view(*block))),
                None => None,
            },
        ),
        Stat::While(cond, body) => StatView::While(
            Box::new(expr_view(*cond)),
            Box::new(block_view(*body)),
        ),
        Stat::ForRange(names, exprs, body) => StatView::ForRange(
            names@,
            exprs_view(exprs@),
            Box::new(block_view(*body)),
        ),
        Stat::Ret(exprs) => StatView::Ret(exprs_view(exprs@)),
    }
}

/// The views of a list of statements.
pub open spec fn stats_view(stats: Seq<Box<Stat>>) -> Seq<StatView>
    decreases stats,
{
    Seq::new(
        stats.len(),
        |i: int|
            if 0 <= i < stats.len() {
                stat_view(*stats[i])
            } else {
                arbitrary()
            },
    )
}

/// The view of a block.
pub open spec fn block_view(block: Block) -> BlockView
    decreases block,
{
    BlockView {
        stats: stats_view(block.stats@),
        ret: match block.ret {
            Some(exprs) => Some(exprs_view(exprs@)),
            None => None,
        },
    }
}

/// The view of a unit.
pub open spec fn node_view(node: Node) -> NodeView {
    match node {
        Node::Expr(expr) => NodeView::Expr(expr_view(expr)),
        Node::Block(block) => NodeView::Block(block_view(block)),
    }
}

impl View for Expr {
    type V = ExprView;

    open spec fn view(&self) -> ExprView {
        expr_view(*self)
    }
}

impl View for Var {
    type V = VarView;

    open spec fn view(&self) -> VarView {
        var_view(*self)
    }
}

impl View for Stat {
    type V = StatView;

    open spec fn view(&self) -> StatView {
        stat_view(*self)
    }
}

impl View for Block {
    type V = BlockView;

    open spec fn view(&self) -> BlockView {
        block_view(*self)
    }
}

impl View for Node {
    type V = NodeView;

    open spec fn view(&self) -> NodeView {
        node_view(*self)
    }
}

/// The view of a list with one more expression.
pub proof fn lemma_exprs_view_push(exprs: Seq<Box<Expr>>, expr: Box<Expr>)
    ensures
        exprs_view(exprs.push(expr)) == exprs_view(exprs).push(expr_view(*expr)),
{
    assert(exprs_view(exprs.push(expr)) =~= exprs_view(exprs).push(expr_view(*expr)));
}

/// The view of a list with one more variable.
pub proof fn lemma_vars_view_push(vars: Seq<Var>, var: Var)
    ensures
        vars_view(vars.push(var)) == vars_view(vars).push(var_view(var)),
{
    assert(vars_view(vars.push(var)) =~= vars_view(vars).push(var_view(var)));
}

/// The view of a list with one more statement.
pub proof fn lemma_stats_view_push(stats: Seq<Box<Stat>>, stat: Box<Stat>)
    ensures
        stats_view(stats.push(stat)) == stats_view(stats).push(stat_view(*stat)),
{
    assert(stats_view(stats.push(stat)) =~= stats_view(stats).push(stat_view(*stat)));
}

} // verus!
